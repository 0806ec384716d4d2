//! What events of tags mean for messages, for the tags of an account and for the filters.
use crate::dispatch::{Evt, TagEvt};
use crate::lists::lemma_first_index;
use crate::model::{AccountId, MessageHeaderView, Provider, Tag, TagView};
use crate::navigation::lemma_other_texts;
use crate::navigation::{lemma_filter_accepts, lemma_filter_holds, lemma_filter_keeps};
use crate::state::{AviaryApp, EffectView, MessageView};
use crate::tag_events::{law_tags_are_put_on_once, tag_other, tags_of};
use vstd::prelude::*;

verus! {

/// Whether tags hold a key exactly where they are to, and are as they were otherwise.
pub open spec fn tag_set(old_tags: Seq<Seq<char>>, new_tags: Seq<Seq<char>>, key: Seq<char>, there: bool) -> bool {
    &&& new_tags.contains(key) == there
    &&& forall|other: Seq<char>| other != key ==> #[trigger] new_tags.contains(other) == old_tags.contains(other)
}

/// Whether headers are as they were but for the tags of one message, which hold a key
/// exactly where they are to.
pub open spec fn headers_tagged(
    old_list: Seq<MessageHeaderView>,
    new_list: Seq<MessageHeaderView>,
    id: Seq<char>,
    key: Seq<char>,
    there: bool,
) -> bool {
    &&& new_list.len() == old_list.len()
    &&& forall|i: int|
        0 <= i < new_list.len() ==> {
            let now = #[trigger] new_list[i];
            &&& now == (MessageHeaderView { tags: now.tags, ..old_list[i] })
            &&& now.id == id ==> tag_set(old_list[i].tags, now.tags, key, there)
            &&& now.id != id ==> now == old_list[i]
        }
}

/// Whether a message is as it was but for its tags, which hold a key exactly where they
/// are to if it is the message in question.
pub open spec fn message_tagged(
    was: Option<MessageView>,
    now: Option<MessageView>,
    id: Seq<char>,
    key: Seq<char>,
    there: bool,
) -> bool {
    match (was, now) {
        (Some(was), Some(now)) => {
            &&& now == (MessageView { tags: now.tags, ..was })
            &&& now.header.id == id ==> tag_set(was.tags, now.tags, key, there)
            &&& now.header.id != id ==> now == was
        },
        (None, None) => true,
        _ => false,
    }
}

/// Whether a key is the one under which messages of an account carry a tag: by its name
/// where the provider names tags on messages and the tag is known, by its id otherwise.
pub open spec fn carries_by(app: AviaryApp, account_id: Seq<char>, tag_id: Seq<char>, key: Seq<char>) -> bool {
    let tags = tags_of(app.tags.by_account, account_id);
    if app.provider_of(account_id) == Provider::Microsoft && exists|i: int|
        0 <= i < tags.len() && (#[trigger] tags[i]).id == tag_id {
        exists|i: int|
            0 <= i < tags.len() && (#[trigger] tags[i]).id == tag_id && key == tags[i].display_name && forall|j: int|
                0 <= j < i ==> (#[trigger] tags[j]).id != tag_id
    } else {
        key == tag_id
    }
}

pub proof fn lemma_message_key(app: AviaryApp, account_id: Seq<char>, tag_id: Seq<char>)
    ensures
        carries_by(app, account_id, tag_id, app.message_key(account_id, tag_id)),
{
    let tags = tags_of(app.tags.by_account, account_id);
    lemma_first_index(tags, crate::kanban::tag_has_id(tag_id));
}

/// A tag that was put on a message shows wherever the message does, and one that was taken
/// off shows nowhere: in the reading pane, in the list and in the results the message holds
/// the key of the tag exactly where it was put on. Its other tags, all else of it and all
/// other messages stay as they were. The column of the tag is loaded again.
pub proof fn law_applied_tags_show_everywhere(
    before: AviaryApp,
    after: AviaryApp,
    account_id: AccountId,
    message_id: String,
    tag_id: String,
    added: bool,
)
    requires
        before.event_done(after, Evt::Tag(TagEvt::TagApplied { account_id, message_id, tag_id, added })),
    ensures
        exists|key: Seq<char>| #[trigger]
            carries_by(before, account_id.0@, tag_id@, key) && message_tagged(
                before.mailbox.viewer.selected.deep_view(),
                after.mailbox.viewer.selected.deep_view(),
                message_id@,
                key,
                added,
            ) && headers_tagged(
                before.mailbox.messages.deep_view(),
                after.mailbox.messages.deep_view(),
                message_id@,
                key,
                added,
            ) && (before.mailbox.search.results is None ==> after.mailbox.search.results is None) && (
            before.mailbox.search.results is Some ==> after.mailbox.search.results is Some && headers_tagged(
                before.mailbox.search.results->0.deep_view(),
                after.mailbox.search.results->0.deep_view(),
                message_id@,
                key,
                added,
            )),
        after.effects.deep_view() == before.effects.deep_view().push(
            EffectView::LoadTagListing { account_id: account_id.0@, tag_id: tag_id@, limit: 50 },
        ),
        after.tags == before.tags,
        after.settings == before.settings,
        after.mailbox.filters == before.mailbox.filters,
{
    let key = before.message_key(account_id.0@, tag_id@);
    lemma_message_key(before, account_id.0@, tag_id@);
    assert forall|tags: Seq<Seq<char>>| tag_set(
        tags,
        #[trigger] crate::tag_events::toggled_tag(tags, key, added),
        key,
        added,
    ) by {
        assert forall|other: Seq<char>| other != key implies #[trigger] crate::tag_events::toggled_tag(
            tags,
            key,
            added,
        ).contains(other) == tags.contains(other) by {
            law_tags_are_put_on_once(tags, key, other, added);
        }
        law_tags_are_put_on_once(tags, key, key, added);
    }
    assert(headers_tagged(
        before.mailbox.messages.deep_view(),
        after.mailbox.messages.deep_view(),
        message_id@,
        key,
        added,
    ));
    assert(message_tagged(
        before.mailbox.viewer.selected.deep_view(),
        after.mailbox.viewer.selected.deep_view(),
        message_id@,
        key,
        added,
    ));
    assert(carries_by(before, account_id.0@, tag_id@, key));
    assert(after.effects.deep_view() =~= before.effects.deep_view().push(
        EffectView::LoadTagListing { account_id: account_id.0@, tag_id: tag_id@, limit: 50 },
    ));
}

/// The tags of an account that came are its tags, on the board too, and it no longer waits
/// for them; those of other accounts stay.
pub proof fn law_tags_are_those_that_came(before: AviaryApp, after: AviaryApp, account_id: AccountId, tags: Vec<Tag>)
    requires
        before.event_done(after, Evt::Tag(TagEvt::Tags { account_id, tags })),
    ensures
        tags_of(after.tags.by_account, account_id.0@) == tags.deep_view(),
        forall|other: Seq<char>| other != account_id.0@ ==> #[trigger] tags_of(after.tags.by_account, other) == tags_of(
            before.tags.by_account,
            other,
        ),
        !after.tags.loading.deep_view().contains(account_id.0@),
        forall|other: Seq<char>|
            other != account_id.0@ ==> #[trigger] after.tags.loading.deep_view().contains(other)
                == before.tags.loading.deep_view().contains(other),
        after.kanban.board(account_id.0@) is Some,
        after.kanban.board(account_id.0@)->0.tags == tags.deep_view(),
        before.kanban.board(account_id.0@) is Some ==> after.kanban.board(account_id.0@)->0.columns
            == before.kanban.board(account_id.0@)->0.columns,
        after.mailbox == before.mailbox,
        after.effects == before.effects,
{
    let loading = before.tags.loading.deep_view();
    let p = crate::app::other_account(account_id.0@);
    lemma_filter_accepts(loading, p);
    lemma_filter_holds(loading, p);
    assert forall|other: Seq<char>| other != account_id.0@ implies #[trigger] after.tags.loading.deep_view().contains(other)
        == loading.contains(other) by {
        if loading.contains(other) {
            lemma_filter_keeps(loading, p, other);
        }
    }
}

/// A tag that got a color has it, and no other tag changes.
pub proof fn law_colors_are_set_on_one_tag(
    before: AviaryApp,
    after: AviaryApp,
    account_id: AccountId,
    id: String,
    color: u32,
)
    requires
        before.event_done(after, Evt::Tag(TagEvt::TagColorSet { account_id, id, color })),
    ensures
        ({
            let was = tags_of(before.tags.by_account, account_id.0@);
            let now = tags_of(after.tags.by_account, account_id.0@);
            &&& now.len() == was.len()
            &&& forall|i: int|
                0 <= i < now.len() ==> {
                    &&& #[trigger] now[i] == (TagView { color: now[i].color, ..was[i] })
                    &&& now[i].id != id@ ==> now[i] == was[i]
                    &&& now[i].id == id@ && (forall|j: int| 0 <= j < i ==> (#[trigger] was[j]).id != id@)
                        ==> now[i].color == Some(color)
                }
        }),
        forall|other: Seq<char>| other != account_id.0@ ==> #[trigger] tags_of(after.tags.by_account, other) == tags_of(
            before.tags.by_account,
            other,
        ),
{
    lemma_first_index(tags_of(before.tags.by_account, account_id.0@), crate::kanban::tag_has_id(id@));
}

/// A tag that was deleted is no tag of its account any more, nor does a filter of the
/// account name it; the others stay.
pub proof fn law_deleted_tags_are_gone(before: AviaryApp, after: AviaryApp, account_id: AccountId, id: String)
    requires
        before.event_done(after, Evt::Tag(TagEvt::TagDeleted { account_id, id })),
    ensures
        ({
            let was = tags_of(before.tags.by_account, account_id.0@);
            let now = tags_of(after.tags.by_account, account_id.0@);
            &&& forall|i: int| 0 <= i < now.len() ==> (#[trigger] now[i]).id != id@ && was.contains(now[i])
            &&& forall|tag: TagView| was.contains(tag) && tag.id != id@ ==> #[trigger] now.contains(tag)
        }),
        forall|other: Seq<char>| other != account_id.0@ ==> #[trigger] tags_of(after.tags.by_account, other) == tags_of(
            before.tags.by_account,
            other,
        ),
        ({
            let was = before.mailbox.filters.tag_filters@;
            let now = after.mailbox.filters.tag_filters@;
            &&& now.contains_key(account_id.0@) ==> !now[account_id.0@].deep_view().contains(id@)
            &&& now.contains_key(account_id.0@) ==> now[account_id.0@].deep_view().len() > 0 || now == was
            &&& forall|text: Seq<char>|
                was.contains_key(account_id.0@) && text != id@ && #[trigger] was[account_id.0@].deep_view().contains(text)
                    ==> now.contains_key(account_id.0@) && now[account_id.0@].deep_view().contains(text)
            &&& forall|other: Seq<char>|
                other != account_id.0@ ==> #[trigger] now.contains_key(other) == was.contains_key(other) && (
                now.contains_key(other) ==> now[other] == was[other])
        }),
        after.mailbox.messages == before.mailbox.messages,
{
    let was = tags_of(before.tags.by_account, account_id.0@);
    let now = tags_of(after.tags.by_account, account_id.0@);
    lemma_filter_accepts(was, tag_other(id@));
    lemma_filter_holds(was, tag_other(id@));
    assert forall|tag: TagView| was.contains(tag) && tag.id != id@ implies #[trigger] now.contains(tag) by {
        lemma_filter_keeps(was, tag_other(id@), tag);
    }
    let filters = before.mailbox.filters.tag_filters@;
    if filters.contains_key(account_id.0@) {
        let texts = filters[account_id.0@].deep_view();
        lemma_other_texts(texts, id@);
        assert forall|text: Seq<char>| text != id@ && #[trigger] texts.contains(text) implies texts.filter(
            crate::settings::other_text(id@),
        ).contains(text) by {
            lemma_filter_keeps(texts, crate::settings::other_text(id@), text);
        }
    }
}

} // verus!
