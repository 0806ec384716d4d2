//! What quick actions send and do, told of the recipe and of the message that they act on.
use crate::lists::lemma_first_index;
use crate::model::MessageHeaderView;
use crate::navigation::{lemma_filter_accepts, lemma_filter_holds, lemma_filter_keeps};
use crate::quick_actions::tag_steps;
use crate::recipes::{
    default_signature, forward_mail, is_default_signature, law_merged_images_keep_their_names, mail_blocks, merged_images,
    reply_mail, QuotedMailView,
};
use crate::settings::{BlockKindView, BlockView, InlineImageView, QuickActionView, QuickForwardView, QuickReplyView, SignatureView};
use crate::state::{AviaryApp, MessageView, QuickActionStepView};
use vstd::prelude::*;

verus! {

/// Whether blocks are the given words, then a signature, then what is quoted, numbered from
/// one.
pub open spec fn reads_as(
    blocks: Seq<BlockView>,
    words: Seq<BlockView>,
    signature: Seq<BlockView>,
    quoted: Seq<BlockKindView>,
) -> bool {
    &&& blocks.len() == words.len() + signature.len() + quoted.len()
    &&& forall|i: int| 0 <= i < words.len() ==> #[trigger] blocks[i].kind == words[i].kind
    &&& forall|i: int|
        words.len() <= i < words.len() + signature.len() ==> #[trigger] blocks[i].kind == signature[i - words.len()].kind
    &&& forall|i: int|
        words.len() + signature.len() <= i < blocks.len() ==> #[trigger] blocks[i].kind == quoted[i - words.len()
            - signature.len()]
    &&& forall|i: int| 0 <= i < blocks.len() ==> #[trigger] blocks[i].id == (i + 1) as u64
}

/// Whether blocks are those of the signature that a mail gets: the first one that is marked
/// as default, and none where none is.
pub open spec fn signs_with(signatures: Seq<SignatureView>, blocks: Seq<BlockView>) -> bool {
    ||| exists|i: int|
        0 <= i < signatures.len() && (#[trigger] signatures[i]).is_default && blocks == signatures[i].blocks && forall|
            j: int,
        |
            0 <= j < i ==> !(#[trigger] signatures[j]).is_default
    ||| blocks.len() == 0 && forall|j: int| 0 <= j < signatures.len() ==> !(#[trigger] signatures[j]).is_default
}

/// Whether a body is made of words, of the signature that is due and of a quote.
pub open spec fn composed(
    blocks: Seq<BlockView>,
    words: Seq<BlockView>,
    signatures: Seq<SignatureView>,
    quoted: Seq<BlockKindView>,
) -> bool {
    exists|signature: Seq<BlockView>| #[trigger]
        signs_with(signatures, signature) && reads_as(blocks, words, signature, quoted)
}

/// Whether images hold one of a name.
pub open spec fn pictures(images: Seq<InlineImageView>, cid: Seq<char>) -> bool {
    exists|i: int| 0 <= i < images.len() && (#[trigger] images[i]).cid == cid
}

proof fn lemma_composed(words: Seq<BlockView>, signatures: Seq<SignatureView>, quoted: Seq<BlockKindView>)
    ensures
        composed(mail_blocks(words, signatures, quoted), words, signatures, quoted),
{
    lemma_first_index(signatures, is_default_signature());
    let signature = match default_signature(signatures) {
        Some(signature) => signature.blocks,
        None => Seq::empty(),
    };
    assert(signs_with(signatures, signature));
    assert(reads_as(mail_blocks(words, signatures, quoted), words, signature, quoted));
}

proof fn lemma_pictures(target: Seq<InlineImageView>, source: Seq<InlineImageView>)
    ensures
        target.is_prefix_of(merged_images(target, source)),
        forall|i: int| 0 <= i < source.len() ==> pictures(merged_images(target, source), (#[trigger] source[i]).cid),
{
    law_merged_images_keep_their_names(target, source);
    let all = merged_images(target, source);
    assert forall|i: int| 0 <= i < source.len() implies pictures(all, (#[trigger] source[i]).cid) by {
        let p = crate::recipes::image_named(source[i].cid);
        assert(all.any(p));
        let k = choose|k: int| 0 <= k < all.len() && p(#[trigger] all[k]);
        assert(all[k].cid == source[i].cid);
    }
}

/// A forward goes to those that the recipe names, each in the field where the recipe names
/// them, under the subject of the quote, with all files of the message. It reads as the words
/// of the recipe, the default signature and the quote, and shows the images of the words and
/// of the message.
pub proof fn law_forwards_follow_their_recipe(
    forward: QuickForwardView,
    signatures: Seq<SignatureView>,
    message: MessageView,
    quoted: QuotedMailView,
)
    ensures
        ({
            let mail = forward_mail(forward, signatures, message, quoted);
            &&& mail.to == forward.to
            &&& mail.cc == forward.cc
            &&& mail.bcc == forward.bcc
            &&& mail.subject == quoted.subject
            &&& mail.files == message.attachments
            &&& composed(mail.blocks, forward.note_blocks, signatures, quoted.kinds)
            &&& forward.note_images.is_prefix_of(mail.images)
            &&& forall|i: int|
                0 <= i < message.inline_images.len() ==> pictures(mail.images, (#[trigger] message.inline_images[i]).cid)
        }),
{
    lemma_composed(forward.note_blocks, signatures, quoted.kinds);
    lemma_images_of(forward.note_images, signatures, message.inline_images);
}

proof fn lemma_images_of(words: Seq<InlineImageView>, signatures: Seq<SignatureView>, quoted: Seq<InlineImageView>)
    ensures
        words.is_prefix_of(crate::recipes::mail_images(words, signatures, quoted)),
        forall|i: int|
            0 <= i < quoted.len() ==> pictures(
                crate::recipes::mail_images(words, signatures, quoted),
                (#[trigger] quoted[i]).cid,
            ),
{
    match default_signature(signatures) {
        Some(signature) => {
            lemma_pictures(words, signature.images);
            lemma_pictures(merged_images(words, signature.images), quoted);
            let all = crate::recipes::mail_images(words, signatures, quoted);
            assert(words =~= all.take(words.len() as int));
        },
        None => {
            lemma_pictures(words, quoted);
        },
    }
}

/// A reply goes to those that the quote names, each in the field where it names them, and
/// carries no files of the message. It reads as the words of the recipe, the default
/// signature and the quote.
pub proof fn law_replies_follow_their_recipe(
    reply: QuickReplyView,
    signatures: Seq<SignatureView>,
    message: MessageView,
    quoted: QuotedMailView,
)
    ensures
        ({
            let mail = reply_mail(reply, signatures, message, quoted);
            &&& mail.to == quoted.to
            &&& mail.cc == quoted.cc
            &&& mail.bcc == quoted.bcc
            &&& mail.subject == quoted.subject
            &&& mail.files.len() == 0
            &&& composed(mail.blocks, reply.body_blocks, signatures, quoted.kinds)
            &&& reply.body_images.is_prefix_of(mail.images)
            &&& forall|i: int|
                0 <= i < message.inline_images.len() ==> pictures(mail.images, (#[trigger] message.inline_images[i]).cid)
        }),
{
    lemma_composed(reply.body_blocks, signatures, quoted.kinds);
    lemma_images_of(reply.body_images, signatures, message.inline_images);
}

/// The step that puts a tag on or takes it off.
pub open spec fn tag_step(tag_id: Seq<char>, adds: bool) -> QuickActionStepView {
    if adds {
        QuickActionStepView::AddTag { tag_id }
    } else {
        QuickActionStepView::RemoveTag { tag_id }
    }
}

/// Whether a step is one for a tag that a test accepts.
spec fn for_tag(ids: Seq<Seq<char>>, test: spec_fn(Seq<char>) -> bool, adds: bool, step: QuickActionStepView) -> bool {
    exists|tag_id: Seq<char>| #[trigger] ids.contains(tag_id) && test(tag_id) && step == tag_step(tag_id, adds)
}

proof fn lemma_tag_steps(ids: Seq<Seq<char>>, test: spec_fn(Seq<char>) -> bool, adds: bool)
    ensures
        forall|i: int|
            0 <= i < tag_steps(ids, test, adds).len() ==> for_tag(ids, test, adds, #[trigger] tag_steps(ids, test, adds)[i]),
        forall|tag_id: Seq<char>| #[trigger]
            ids.contains(tag_id) && test(tag_id) ==> tag_steps(ids, test, adds).contains(tag_step(tag_id, adds)),
{
    let steps = tag_steps(ids, test, adds);
    lemma_filter_accepts(ids, test);
    lemma_filter_holds(ids, test);
    assert forall|i: int| 0 <= i < steps.len() implies for_tag(ids, test, adds, #[trigger] steps[i]) by {
        let tag_id = ids.filter(test)[i];
        assert(ids.contains(tag_id));
        assert(test(tag_id));
    }
    assert forall|tag_id: Seq<char>| #[trigger] ids.contains(tag_id) && test(tag_id) implies steps.contains(
        tag_step(tag_id, adds),
    ) by {
        lemma_filter_keeps(ids, test, tag_id);
        let k = choose|k: int| 0 <= k < ids.filter(test).len() && ids.filter(test)[k] == tag_id;
        assert(steps[k] == tag_step(tag_id, adds));
    }
}

/// What an action does to a message: it takes off exactly those of its tags that the message
/// carries and puts on exactly those that it does not, marks and flags it exactly where that
/// changes something, and moves it exactly where it is elsewhere. A mail comes before all of
/// that and a move after all of it, and there is at most one of each.
pub proof fn law_steps_are_what_differs(
    app: AviaryApp,
    action: QuickActionView,
    header: MessageHeaderView,
    source: Option<Seq<char>>,
    mail: Option<(MessageView, QuotedMailView)>,
)
    ensures
        ({
            let steps = app.steps_of(action, header, source, mail);
            &&& forall|tag_id: Seq<char>| #[trigger]
                action.remove_tags.contains(tag_id) && header.tags.contains(app.message_key(header.account_id, tag_id))
                    ==> steps.contains(QuickActionStepView::RemoveTag { tag_id })
            &&& forall|tag_id: Seq<char>| #[trigger]
                action.add_tags.contains(tag_id) && !header.tags.contains(app.message_key(header.account_id, tag_id))
                    ==> steps.contains(QuickActionStepView::AddTag { tag_id })
            &&& forall|i: int| 0 <= i < steps.len() ==> step_due(app, action, header, source, mail, #[trigger] steps[i])
            &&& forall|i: int|
                0 <= i < steps.len() && (#[trigger] steps[i] is Forward || steps[i] is Reply) ==> i == 0
            &&& forall|i: int| 0 <= i < steps.len() && #[trigger] steps[i] is Move ==> i == steps.len() - 1
            &&& match action.mark_read {
                Some(read) => read != header.is_read ==> steps.contains(QuickActionStepView::MarkRead { read }),
                None => true,
            }
            &&& match action.set_flagged {
                Some(flagged) => flagged != header.is_flagged ==> steps.contains(
                    QuickActionStepView::SetFlag { flagged },
                ),
                None => true,
            }
            &&& match action.move_to_folder_id {
                Some(target) => source != Some(target) ==> steps.len() > 0 && steps.last() is Move,
                None => true,
            }
            &&& mail is Some && (action.forward is Some || action.reply is Some) ==> steps.len() > 0 && (steps[0] is Forward
                || steps[0] is Reply)
        }),
{
    let steps = app.steps_of(action, header, source, mail);
    let a = app.mail_steps(action, mail);
    let b = tag_steps(action.remove_tags, app.carried(header), false);
    let c = tag_steps(action.add_tags, app.not_carried(header), true);
    let d = AviaryApp::mark_steps(action, header);
    let e = AviaryApp::move_steps(action, source);
    lemma_tag_steps(action.remove_tags, app.carried(header), false);
    lemma_tag_steps(action.add_tags, app.not_carried(header), true);
    assert(steps == a + b + c + d + e);
    assert forall|i: int| 0 <= i < b.len() implies #[trigger] steps[a.len() + i] == b[i] by {}
    assert forall|i: int| 0 <= i < c.len() implies #[trigger] steps[a.len() + b.len() + i] == c[i] by {}
    assert forall|i: int| 0 <= i < d.len() implies #[trigger] steps[a.len() + b.len() + c.len() + i] == d[i] by {}
    assert forall|tag_id: Seq<char>| #[trigger]
        action.remove_tags.contains(tag_id) && app.carries(header, tag_id) implies steps.contains(
        QuickActionStepView::RemoveTag { tag_id },
    ) by {
        assert(app.carried(header)(tag_id));
        let k = choose|k: int| 0 <= k < b.len() && b[k] == tag_step(tag_id, false);
        assert(steps[a.len() + k] == b[k]);
    }
    assert forall|tag_id: Seq<char>| #[trigger]
        action.add_tags.contains(tag_id) && !app.carries(header, tag_id) implies steps.contains(
        QuickActionStepView::AddTag { tag_id },
    ) by {
        assert(app.not_carried(header)(tag_id));
        let k = choose|k: int| 0 <= k < c.len() && c[k] == tag_step(tag_id, true);
        assert(steps[a.len() + b.len() + k] == c[k]);
    }
    assert forall|i: int| 0 <= i < steps.len() implies step_due(app, action, header, source, mail, #[trigger] steps[i])
        && ((steps[i] is Forward || steps[i] is Reply) ==> i == 0) && (steps[i] is Move ==> i == steps.len() - 1) by {
        if i < a.len() {
            assert(steps[i] == a[i]);
        } else if i < a.len() + b.len() {
            assert(steps[i] == b[i - a.len()]);
            assert(for_tag(action.remove_tags, app.carried(header), false, b[i - a.len()]));
        } else if i < a.len() + b.len() + c.len() {
            assert(steps[i] == c[i - a.len() - b.len()]);
            assert(for_tag(action.add_tags, app.not_carried(header), true, c[i - a.len() - b.len()]));
        } else if i < a.len() + b.len() + c.len() + d.len() {
            assert(steps[i] == d[i - a.len() - b.len() - c.len()]);
        } else {
            assert(steps[i] == e[i - a.len() - b.len() - c.len() - d.len()]);
        }
    }
    let m = a.len() + b.len() + c.len();
    if action.mark_read is Some && action.mark_read->0 != header.is_read {
        assert(steps[m as int] == d[0]);
    }
    if action.set_flagged is Some && action.set_flagged->0 != header.is_flagged {
        assert(steps[m + d.len() - 1] == d[d.len() - 1]);
    }
    if e.len() > 0 {
        assert(steps.last() == e[0]);
    }
    if a.len() > 0 {
        assert(steps[0] == a[0]);
    }
}

/// Whether an action calls for a step on a message.
pub open spec fn step_due(
    app: AviaryApp,
    action: QuickActionView,
    header: MessageHeaderView,
    source: Option<Seq<char>>,
    mail: Option<(MessageView, QuotedMailView)>,
    step: QuickActionStepView,
) -> bool {
    match step {
        QuickActionStepView::Forward { mail: sent } => {
            &&& mail is Some && action.forward is Some
            &&& sent.to == action.forward->0.to
            &&& sent.cc == action.forward->0.cc
            &&& sent.bcc == action.forward->0.bcc
            &&& sent.files == (mail->0).0.attachments
        },
        QuickActionStepView::Reply { mail: sent, reply_all } => {
            &&& mail is Some && action.reply is Some && action.forward is None
            &&& reply_all == action.reply->0.reply_all
            &&& sent.to == (mail->0).1.to
            &&& sent.cc == (mail->0).1.cc
            &&& sent.bcc == (mail->0).1.bcc
        },
        QuickActionStepView::RemoveTag { tag_id } => action.remove_tags.contains(tag_id) && header.tags.contains(
            app.message_key(header.account_id, tag_id),
        ),
        QuickActionStepView::AddTag { tag_id } => action.add_tags.contains(tag_id) && !header.tags.contains(
            app.message_key(header.account_id, tag_id),
        ),
        QuickActionStepView::MarkRead { read } => action.mark_read == Some(read) && header.is_read != read,
        QuickActionStepView::SetFlag { flagged } => action.set_flagged == Some(flagged) && header.is_flagged != flagged,
        QuickActionStepView::Move { source_folder_id, target_folder_id } => action.move_to_folder_id == Some(
            target_folder_id,
        ) && source_folder_id == source && source != Some(target_folder_id),
    }
}

} // verus!
