//! What events do to a list of message headers.
use crate::lists::{
    first_index, lemma_first_index, map_each, position_where, ranks, retain_where, sort_stable,
    stable_sort, take_list,
};
use crate::model::{AccountId, LastAction, MessageHeader, MessageHeaderView, MessageRef, MessageRefView};
use crate::text::{text_at_most, text_le};
use vstd::prelude::*;

verus! {

/// The reply or forward that the last header of message `id` in `known` tells of.
pub open spec fn known_action(known: Seq<MessageHeaderView>, id: Seq<char>) -> Option<(LastAction, Option<i128>)>
    decreases known.len(),
{
    if known.len() == 0 {
        None
    } else if known.last().id == id && known.last().last_action is Some {
        Some((known.last().last_action->0, known.last().last_action_at))
    } else {
        known_action(known.drop_last(), id)
    }
}

/// A header with the action that `known` tells of, if it has none of its own.
pub open spec fn with_known_action(known: Seq<MessageHeaderView>) -> spec_fn(
    MessageHeaderView,
) -> MessageHeaderView {
    |header: MessageHeaderView|
        {
            match known_action(known, header.id) {
                Some((action, at)) if header.last_action is None => MessageHeaderView {
                    last_action: Some(action),
                    last_action_at: at,
                    ..header
                },
                _ => header,
            }
        }
}

/// Order of the list: the newest message first.
pub open spec fn newest_first() -> spec_fn(MessageHeaderView, MessageHeaderView) -> bool {
    |a: MessageHeaderView, b: MessageHeaderView| a.received >= b.received
}

/// Order of a list of several accounts: the newest message first, then by account
/// and message.
pub open spec fn newest_then_name() -> spec_fn(MessageHeaderView, MessageHeaderView) -> bool {
    |a: MessageHeaderView, b: MessageHeaderView|
        a.received > b.received || (a.received == b.received && (if a.account_id == b.account_id {
            text_le(a.id, b.id)
        } else {
            text_le(a.account_id, b.account_id)
        }))
}

/// `headers` and then those of `added` that are not in it yet.
pub open spec fn appended(headers: Seq<MessageHeaderView>, added: Seq<MessageHeaderView>) -> Seq<MessageHeaderView>
    decreases added.len(),
{
    if added.len() == 0 {
        headers
    } else {
        let front = appended(headers, added.drop_last());
        if front.any(is_message(added.last().reference())) {
            front
        } else {
            front.push(added.last())
        }
    }
}

/// Whether a header is that of the given message.
pub open spec fn is_message(reference: MessageRefView) -> spec_fn(MessageHeaderView) -> bool {
    |header: MessageHeaderView| header.reference() == reference
}

/// Whether a header has another id than `id`.
pub open spec fn other_message_id(id: Seq<char>) -> spec_fn(MessageHeaderView) -> bool {
    |header: MessageHeaderView| header.id != id
}

/// `headers` with `header` in place of the first header of the given message, if there is one.
pub open spec fn replaced(
    headers: Seq<MessageHeaderView>,
    reference: MessageRefView,
    header: MessageHeaderView,
) -> Seq<MessageHeaderView> {
    match first_index(headers, is_message(reference)) {
        Some(i) => headers.update(i, header),
        None => headers,
    }
}

/// `headers` with `header` in place of the first header of the given message, or behind all.
pub open spec fn placed(
    headers: Seq<MessageHeaderView>,
    reference: MessageRefView,
    header: MessageHeaderView,
) -> Seq<MessageHeaderView> {
    match first_index(headers, is_message(reference)) {
        Some(i) => headers.update(i, header),
        None => headers.push(header),
    }
}

/// A header that tells of no action takes that of the header it replaces.
pub open spec fn with_action_of(header: MessageHeaderView, known: MessageHeaderView) -> MessageHeaderView {
    if header.last_action is None {
        MessageHeaderView { last_action: known.last_action, last_action_at: known.last_action_at, ..header }
    } else {
        header
    }
}

/// `headers` after the headers `changes` of an account came: each takes the place of the
/// header of its message, whose action it keeps if it tells of none, or comes behind all.
pub open spec fn upserted(headers: Seq<MessageHeaderView>, account_id: Seq<char>, changes: Seq<MessageHeaderView>) -> Seq<
    MessageHeaderView,
>
    decreases changes.len(),
{
    if changes.len() == 0 {
        headers
    } else {
        let front = upserted(headers, account_id, changes.drop_last());
        let header = changes.last();
        match first_index(front, is_message(MessageRefView { account_id, id: header.id })) {
            Some(i) => front.update(i, with_action_of(header, front[i])),
            None => front.push(header),
        }
    }
}

/// A change of one message.
#[derive(Debug, Clone, Copy, PartialEq, Eq, Structural)]
pub enum HeaderChange {
    Read { read: bool },
    Flag { flagged: bool },
    Action { action: LastAction, at: i128 },
}

impl HeaderChange {
    /// A header after the change.
    pub open spec fn applied(self, header: MessageHeaderView) -> MessageHeaderView {
        match self {
            HeaderChange::Read { read } => MessageHeaderView { is_read: read, ..header },
            HeaderChange::Flag { flagged } => MessageHeaderView { is_flagged: flagged, ..header },
            HeaderChange::Action { action, at } => MessageHeaderView {
                last_action: Some(action),
                last_action_at: Some(at),
                ..header
            },
        }
    }

    /// A header after a change of message `id`, whichever account it is of.
    pub open spec fn of_id(self, id: Seq<char>) -> spec_fn(MessageHeaderView) -> MessageHeaderView {
        |header: MessageHeaderView|
            if header.id == id {
                self.applied(header)
            } else {
                header
            }
    }

    /// A header after a change of the given message.
    pub open spec fn of_message(self, reference: MessageRefView) -> spec_fn(
        MessageHeaderView,
    ) -> MessageHeaderView {
        |header: MessageHeaderView|
            if header.reference() == reference {
                self.applied(header)
            } else {
                header
            }
    }

    /// Applies the change to a header.
    pub fn apply(self, header: MessageHeader) -> (changed: MessageHeader)
        ensures
            changed.deep_view() == self.applied(header.deep_view()),
    {
        let mut header = header;
        match self {
            HeaderChange::Read { read } => {
                header.is_read = read;
            },
            HeaderChange::Flag { flagged } => {
                header.is_flagged = flagged;
            },
            HeaderChange::Action { action, at } => {
                header.last_action = Some(action);
                header.last_action_at = Some(at);
            },
        }
        header
    }
}

/// The action that the last header of message `id` in `known` tells of.
fn find_action(known: &Vec<MessageHeader>, id: &String) -> (action: Option<(LastAction, Option<i128>)>)
    ensures
        action == known_action(known.deep_view(), id@),
{
    let ghost all = known.deep_view();
    let mut n: usize = known.len();
    assert(all.take(n as int) =~= all);
    while n > 0
        invariant
            n <= known.len(),
            all == known.deep_view(),
            known_action(all, id@) == known_action(all.take(n as int), id@),
        decreases n,
    {
        let header = &known[n - 1];
        assert(all[n - 1] == header.deep_view());
        assert(all.take(n as int).drop_last() =~= all.take(n - 1));
        if header.id == *id {
            if let Some(action) = header.last_action {
                return Some((action, header.last_action_at));
            }
        }
        n -= 1;
    }
    None
}

/// Lets headers that tell of no action keep the one that was known before: a source
/// without this information is not one that cleared it.
pub fn preserve_last_action(known: &Vec<MessageHeader>, new: Vec<MessageHeader>) -> (kept: Vec<MessageHeader>)
    ensures
        kept.deep_view() == new.deep_view().map_values(with_known_action(known.deep_view())),
{
    map_each(
        new,
        |header: MessageHeader| -> (kept: MessageHeader)
            ensures
                kept.deep_view() == with_known_action(known.deep_view())(header.deep_view())
            {
            let mut header = header;
            if header.last_action.is_none() {
                if let Some((action, at)) = find_action(known, &header.id) {
                    header.last_action = Some(action);
                    header.last_action_at = at;
                }
            }
            header
        },
        Ghost(with_known_action(known.deep_view())),
    )
}

/// Puts the newest message first.
pub(crate) fn sort_newest(headers: Vec<MessageHeader>) -> (sorted: Vec<MessageHeader>)
    ensures
        sorted.deep_view() == stable_sort(headers.deep_view(), newest_first()),
{
    sort_stable(
        headers,
        |a: &MessageHeader, b: &MessageHeader| -> (le: bool)
            ensures
                le == (a.deep_view().received >= b.deep_view().received)
            { a.received >= b.received },
        Ghost(newest_first()),
    )
}

/// Puts the newest message first, and messages of one instant by account and message.
pub(crate) fn sort_newest_then_name(headers: Vec<MessageHeader>) -> (sorted: Vec<MessageHeader>)
    ensures
        sorted.deep_view() == stable_sort(headers.deep_view(), newest_then_name()),
{
    sort_stable(
        headers,
        |a: &MessageHeader, b: &MessageHeader| -> (le: bool)
            ensures
                le == newest_then_name()(a.deep_view(), b.deep_view())
            {
            if a.received != b.received {
                a.received > b.received
            } else if a.account_id == b.account_id {
                text_at_most(&a.id, &b.id)
            } else {
                text_at_most(&a.account_id.0, &b.account_id.0)
            }
        },
        Ghost(newest_then_name()),
    )
}

/// Whether `headers` holds the message.
pub(crate) fn holds_message(headers: &Vec<MessageHeader>, account_id: &AccountId, id: &String) -> (found: Option<
    usize,
>)
    ensures
        match found {
            Some(i) => i < headers.len() && first_index(
                headers.deep_view(),
                is_message(MessageRefView { account_id: account_id.0@, id: id@ }),
            ) == Some(i as int),
            None => first_index(
                headers.deep_view(),
                is_message(MessageRefView { account_id: account_id.0@, id: id@ }),
            ) is None,
        },
        found is Some == headers.deep_view().any(is_message(MessageRefView { account_id: account_id.0@, id: id@ })),
{
    let ghost test = is_message(MessageRefView { account_id: account_id.0@, id: id@ });
    proof {
        lemma_first_index(headers.deep_view(), test);
    }
    position_where(
        headers,
        |header: &MessageHeader| -> (same: bool)
            ensures
                same == is_message(MessageRefView { account_id: account_id.0@, id: id@ })(header.deep_view())
            { header.account_id == *account_id && header.id == *id },
        Ghost(is_message(MessageRefView { account_id: account_id.0@, id: id@ })),
    )
}

/// Appends the headers that are not in the list yet.
pub fn dedup_append(headers: Vec<MessageHeader>, added: Vec<MessageHeader>) -> (all: Vec<MessageHeader>)
    ensures
        all.deep_view() == appended(headers.deep_view(), added.deep_view()),
{
    let ghost start = headers.deep_view();
    let ghost more = added.deep_view();
    let ghost raw = added@;
    let mut all = headers;
    assert(more.take(0) =~= Seq::empty());
    for header in iter: added.into_iter()
        invariant
            iter.seq() == raw,
            more.len() == raw.len(),
            forall|i: int| 0 <= i < raw.len() ==> more[i] == #[trigger] raw[i].deep_view(),
            all.deep_view() == appended(start, more.take(iter.index() as int)),
    {
        let ghost k = iter.index() as int;
        let ghost before = all.deep_view();
        assert(more[k] == raw[k].deep_view());
        assert(more.take(k + 1).drop_last() =~= more.take(k));
        assert(more.take(k + 1).last() == more[k]);
        let known = holds_message(&all, &header.account_id, &header.id);
        assert(header.deep_view().reference() == (MessageRefView {
            account_id: header.account_id.0@,
            id: header.id@,
        }));
        if known.is_none() {
            all.push(header);
            assert(all.deep_view() =~= before.push(more[k]));
        }
    }
    assert(more.take(more.len() as int) =~= more);
    all
}

/// Replaces the header of a message where it stands.
pub(crate) fn replace_header(headers: &mut Vec<MessageHeader>, account_id: &AccountId, header: MessageHeader)
    ensures
        final(headers).deep_view() == replaced(
            old(headers).deep_view(),
            MessageRefView { account_id: account_id.0@, id: header.id@ },
            header.deep_view(),
        ),
{
    let ghost before = headers.deep_view();
    let ghost shown = header.deep_view();
    if let Some(i) = holds_message(headers, account_id, &header.id) {
        headers.set(i, header);
        assert(headers.deep_view() =~= before.update(i as int, shown));
    }
}

/// Replaces the header of a message where it stands, or adds it behind all.
pub(crate) fn place_header(headers: &mut Vec<MessageHeader>, account_id: &AccountId, header: MessageHeader)
    ensures
        final(headers).deep_view() == placed(
            old(headers).deep_view(),
            MessageRefView { account_id: account_id.0@, id: header.id@ },
            header.deep_view(),
        ),
{
    let ghost before = headers.deep_view();
    let ghost shown = header.deep_view();
    if let Some(i) = holds_message(headers, account_id, &header.id) {
        headers.set(i, header);
        assert(headers.deep_view() =~= before.update(i as int, shown));
    } else {
        headers.push(header);
        assert(headers.deep_view() =~= before.push(shown));
    }
}

/// Takes over the headers of an account that changed.
pub(crate) fn upsert_headers(headers: &mut Vec<MessageHeader>, account_id: &AccountId, changes: Vec<MessageHeader>)
    ensures
        final(headers).deep_view() == upserted(old(headers).deep_view(), account_id.0@, changes.deep_view()),
{
    let ghost start = headers.deep_view();
    let ghost all = changes.deep_view();
    let ghost raw = changes@;
    assert(all.take(0) =~= Seq::empty());
    for header in iter: changes.into_iter()
        invariant
            iter.seq() == raw,
            all.len() == raw.len(),
            forall|i: int| 0 <= i < raw.len() ==> all[i] == #[trigger] raw[i].deep_view(),
            headers.deep_view() == upserted(start, account_id.0@, all.take(iter.index() as int)),
    {
        let ghost k = iter.index() as int;
        let ghost before = headers.deep_view();
        assert(all[k] == raw[k].deep_view());
        assert(all.take(k + 1).drop_last() =~= all.take(k));
        let mut header = header;
        match holds_message(headers, account_id, &header.id) {
            Some(i) => {
                assert(before[i as int] == headers[i as int].deep_view());
                if header.last_action.is_none() {
                    header.last_action = headers[i].last_action;
                    header.last_action_at = headers[i].last_action_at;
                }
                let ghost shown = header.deep_view();
                headers.set(i, header);
                assert(shown == with_action_of(all[k], before[i as int]));
                assert(headers.deep_view() =~= before.update(i as int, shown));
            },
            None => {
                headers.push(header);
                assert(headers.deep_view() =~= before.push(all[k]));
            },
        }
    }
    assert(all.take(all.len() as int) =~= all);
}

/// Changes the headers with the given id.
pub(crate) fn change_id(headers: &mut Vec<MessageHeader>, id: &String, change: HeaderChange)
    ensures
        final(headers).deep_view() == old(headers).deep_view().map_values(change.of_id(id@)),
{
    let taken = take_list(headers);
    *headers = map_each(
        taken,
        |header: MessageHeader| -> (changed: MessageHeader)
            ensures
                changed.deep_view() == change.of_id(id@)(header.deep_view())
            {
            if header.id == *id {
                change.apply(header)
            } else {
                header
            }
        },
        Ghost(change.of_id(id@)),
    );
}

/// Changes the headers of the given message.
pub(crate) fn change_message(headers: &mut Vec<MessageHeader>, reference: &MessageRef, change: HeaderChange)
    ensures
        final(headers).deep_view() == old(headers).deep_view().map_values(
            change.of_message(reference.deep_view()),
        ),
{
    let taken = take_list(headers);
    *headers = map_each(
        taken,
        |header: MessageHeader| -> (changed: MessageHeader)
            ensures
                changed.deep_view() == change.of_message(reference.deep_view())(header.deep_view())
            {
            if header.account_id == reference.account_id && header.id == reference.id {
                change.apply(header)
            } else {
                header
            }
        },
        Ghost(change.of_message(reference.deep_view())),
    );
}

/// Drops the headers with the given id.
pub(crate) fn drop_id(headers: &mut Vec<MessageHeader>, id: &String)
    ensures
        final(headers).deep_view() == old(headers).deep_view().filter(other_message_id(id@)),
{
    let taken = take_list(headers);
    *headers = retain_where(
        taken,
        |header: &MessageHeader| -> (keep: bool)
            ensures
                keep == (header.deep_view().id != id@)
            { header.id != *id },
        Ghost(other_message_id(id@)),
    );
}

/// Appending twice is appending once: no message comes to stand in a list twice by
/// being appended.
pub proof fn law_appending_adds_no_copies(headers: Seq<MessageHeaderView>, added: Seq<MessageHeaderView>)
    ensures
        headers.is_prefix_of(appended(headers, added)),
        forall|i: int|
            #![trigger added[i]]
            0 <= i < added.len() ==> appended(headers, added).any(is_message(added[i].reference())),
        forall|i: int, j: int|
            #![trigger appended(headers, added)[i], appended(headers, added)[j]]
            headers.len() <= j < appended(headers, added).len() && 0 <= i < j ==> appended(
                headers,
                added,
            )[i].reference() != appended(headers, added)[j].reference(),
    decreases added.len(),
{
    if added.len() > 0 {
        let init = added.drop_last();
        law_appending_adds_no_copies(headers, init);
        let front = appended(headers, init);
        let all = appended(headers, added);
        let last = added.last();
        assert forall|i: int| #![trigger added[i]] 0 <= i < added.len() implies all.any(
            is_message(added[i].reference()),
        ) by {
            let test = is_message(added[i].reference());
            if i < init.len() {
                assert(init[i] == added[i]);
                assert(front.any(test));
                let k = choose|k: int| 0 <= k < front.len() && #[trigger] test(front[k]);
                assert(all[k] == front[k]);
                assert(test(all[k]));
            } else if !front.any(test) {
                assert(all[front.len() as int] == last);
                assert(test(all[front.len() as int]));
            }
        }
        assert forall|i: int, j: int|
            #![trigger all[i], all[j]]
            headers.len() <= j < all.len() && 0 <= i < j implies all[i].reference() != all[j].reference() by {
            if j == front.len() {
                let test = is_message(last.reference());
                assert(!front.any(test));
                assert(!test(front[i]));
            }
        }
    }
}

/// A header that tells of no action keeps the one that was known; one that tells of an
/// action keeps its own. Nothing else of a header changes.
pub proof fn law_actions_are_not_forgotten(known: Seq<MessageHeaderView>, header: MessageHeaderView)
    ensures
        header.last_action is Some ==> with_known_action(known)(header) == header,
        header.last_action is None && (exists|i: int|
            0 <= i < known.len() && (#[trigger] known[i]).id == header.id && known[i].last_action is Some)
            ==> with_known_action(known)(header).last_action is Some,
        with_known_action(known)(header) == (MessageHeaderView {
            last_action: with_known_action(known)(header).last_action,
            last_action_at: with_known_action(known)(header).last_action_at,
            ..header
        }),
{
    if header.last_action is None && (exists|i: int|
        0 <= i < known.len() && (#[trigger] known[i]).id == header.id && known[i].last_action is Some) {
        let i = choose|i: int|
            0 <= i < known.len() && (#[trigger] known[i]).id == header.id && known[i].last_action is Some;
        lemma_known_action(known, header.id, i);
    }
}

proof fn lemma_known_action(known: Seq<MessageHeaderView>, id: Seq<char>, i: int)
    requires
        0 <= i < known.len(),
        known[i].id == id,
        known[i].last_action is Some,
    ensures
        known_action(known, id) is Some,
    decreases known.len(),
{
    if !(known.last().id == id && known.last().last_action is Some) {
        assert(known.drop_last()[i] == known[i]);
        lemma_known_action(known.drop_last(), id, i);
    }
}

/// A list that was put in order shows its messages from the newest to the oldest.
pub proof fn law_newest_first(headers: Seq<MessageHeaderView>)
    ensures
        forall|i: int, j: int|
            #![trigger stable_sort(headers, newest_first())[i], stable_sort(headers, newest_first())[j]]
            0 <= i < j < headers.len() ==> stable_sort(headers, newest_first())[i].received >= stable_sort(
                headers,
                newest_first(),
            )[j].received,
        stable_sort(headers, newest_first()).to_multiset() == headers.to_multiset(),
{
    assert(ranks(newest_first()));
    crate::lists::lemma_stable_sort(headers, newest_first());
}

} // verus!
