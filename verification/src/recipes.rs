//! One-click recipes on messages: what they are, and the steps they come down to.
use crate::lists::{any_where, first_where, position_where};
use crate::model::clone_list;
use crate::settings::{
    Block, BlockKind, BlockKindView, BlockView, InlineImage, InlineImageView, QuickForward, QuickForwardView, QuickReply,
    QuickReplyView, Signature, SignatureView,
};
use crate::state::{
    Message, MessageView, OutgoingDraft, OutgoingDraftView, QuickActionExecution, QuickActionStep,
    QuickActionStepView,
};
use crate::text::{chars_of, trim, trimmed};
use vstd::prelude::*;

verus! {

/// Mark of the ids of executions: composers count below it.
pub const QUICK_ACTION_EXECUTION_BIT: u64 = 0x8000_0000_0000_0000;

/// What a reply or forward starts with, before the words of the recipe.
#[derive(Debug, PartialEq, Eq)]
pub struct QuotedMail {
    pub to: String,
    pub cc: String,
    pub bcc: String,
    pub subject: String,
    pub kinds: Vec<BlockKind>,
}

/// Mathematical form of [`QuotedMail`].
#[verifier::ext_equal]
pub struct QuotedMailView {
    pub to: Seq<char>,
    pub cc: Seq<char>,
    pub bcc: Seq<char>,
    pub subject: Seq<char>,
    pub kinds: Seq<BlockKindView>,
}

impl DeepView for QuotedMail {
    type V = QuotedMailView;

    open spec fn deep_view(&self) -> QuotedMailView {
        QuotedMailView {
            to: self.to.deep_view(),
            cc: self.cc.deep_view(),
            bcc: self.bcc.deep_view(),
            subject: self.subject.deep_view(),
            kinds: self.kinds.deep_view(),
        }
    }
}

impl Clone for QuotedMail {
    fn clone(&self) -> (copy: Self)
        ensures
            copy.deep_view() == self.deep_view(),
    {
        QuotedMail {
            to: self.to.clone(),
            cc: self.cc.clone(),
            bcc: self.bcc.clone(),
            subject: self.subject.clone(),
            kinds: crate::model::clone_list(&self.kinds),
        }
    }
}

/// Whether an id is one of an execution.
pub open spec fn is_execution(id: u64) -> bool {
    id >= QUICK_ACTION_EXECUTION_BIT
}

/// The id of the execution with number `seq`.
pub open spec fn execution_id(seq: u64) -> u64 {
    if seq >= QUICK_ACTION_EXECUTION_BIT {
        seq
    } else {
        (seq + QUICK_ACTION_EXECUTION_BIT) as u64
    }
}

/// Whether an id is one of an execution.
pub fn is_quick_action_execution(id: u64) -> (yes: bool)
    ensures
        yes == is_execution(id),
{
    assert((id & 0x8000_0000_0000_0000u64 != 0) == (id >= 0x8000_0000_0000_0000u64)) by (bit_vector);
    id & QUICK_ACTION_EXECUTION_BIT != 0
}

/// The id of the execution with number `seq`.
pub fn execution_of(seq: u64) -> (id: u64)
    ensures
        id == execution_id(seq),
        is_execution(id),
{
    assert(seq < 0x8000_0000_0000_0000u64 ==> seq | 0x8000_0000_0000_0000u64 == seq + 0x8000_0000_0000_0000u64)
        by (bit_vector);
    assert(seq >= 0x8000_0000_0000_0000u64 ==> seq | 0x8000_0000_0000_0000u64 == seq) by (bit_vector);
    seq | QUICK_ACTION_EXECUTION_BIT
}

/// The number that follows `seq`.
pub open spec fn next_seq(seq: u64) -> u64 {
    if seq == u64::MAX {
        0
    } else {
        (seq + 1) as u64
    }
}

/// Whether the `@` at `p` is the only one.
pub open spec fn is_only_at(address: Seq<char>, p: int) -> bool {
    &&& 0 <= p < address.len()
    &&& address[p] == '@'
    &&& forall|i: int| 0 <= i < address.len() && i != p ==> #[trigger] address[i] != '@'
}

/// Whether an address names someone at a domain of several parts.
pub open spec fn valid_address(address: Seq<char>) -> bool {
    exists|p: int| #[trigger] is_only_at(address, p) && valid_at(address, p)
}

/// Whether what stands before and behind the `@` at `p` makes an address.
pub open spec fn valid_at(address: Seq<char>, p: int) -> bool {
    let local = address.take(p);
    let domain = address.skip(p + 1);
    &&& trimmed(local).len() > 0
    &&& domain.contains('.')
    &&& domain[0] != '.'
    &&& domain.last() != '.'
}

/// Whether an address names someone at a domain of several parts.
fn address_is_valid(address: &String) -> (valid: bool)
    ensures
        valid == valid_address(address@),
{
    let chars = chars_of(address.as_str());
    let n: usize = chars.len();
    let mut place: Option<usize> = None;
    let mut i: usize = 0;
    while i < n
        invariant
            i <= n,
            n == chars.len(),
            chars@ == address@,
            match place {
                Some(p) => p < i && address@[p as int] == '@' && forall|j: int|
                    0 <= j < i && j != p ==> #[trigger] address@[j] != '@',
                None => forall|j: int| 0 <= j < i ==> #[trigger] address@[j] != '@',
            },
        decreases n - i,
    {
        if chars[i] == '@' {
            if let Some(p) = place {
                assert(!valid_address(address@)) by {
                    if valid_address(address@) {
                        let q = choose|q: int| #[trigger] is_only_at(address@, q) && valid_at(address@, q);
                        assert(address@[p as int] == '@' && address@[i as int] == '@');
                    }
                }
                return false;
            }
            place = Some(i);
        }
        i += 1;
    }
    match place {
        None => {
            assert(!valid_address(address@)) by {
                if valid_address(address@) {
                    let q = choose|q: int| #[trigger] is_only_at(address@, q) && valid_at(address@, q);
                    assert(address@[q] == '@');
                }
            }
            false
        },
        Some(p) => {
            assert(is_only_at(address@, p as int));
            assert forall|q: int| #[trigger] is_only_at(address@, q) implies q == p by {
                assert(address@[q] == '@');
                assert(address@[p as int] == '@');
            }
            let local = address.as_str().substring_char(0, p);
            assert(local@ =~= address@.take(p as int));
            let ghost domain = address@.skip(p + 1);
            let named = !trim(local).as_str().is_empty();
            let mut dot = false;
            let mut k: usize = p + 1;
            while k < n
                invariant
                    p < k <= n,
                    n == chars.len(),
                    chars@ == address@,
                    domain == address@.skip(p + 1),
                    dot == exists|j: int| 0 <= j < k - p - 1 && #[trigger] domain[j] == '.',
                decreases n - k,
            {
                assert(domain[k - p - 1] == address@[k as int]);
                if chars[k] == '.' {
                    dot = true;
                }
                k += 1;
            }
            assert(dot == domain.contains('.')) by {
                if dot {
                    let j = choose|j: int| 0 <= j < n - p - 1 && #[trigger] domain[j] == '.';
                    assert(domain[j] == '.');
                }
                if domain.contains('.') {
                    let j = choose|j: int| 0 <= j < domain.len() && domain[j] == '.';
                    assert(domain[j] == '.');
                }
            }
            if dot {
                assert(domain.len() > 0);
                assert(domain[0] == address@[p + 1]);
                assert(domain.last() == address@[n - 1]);
            }
            let valid = named && dot && chars[p + 1] != '.' && chars[n - 1] != '.';
            assert(valid == valid_at(address@, p as int));
            valid
        },
    }
}

/// Whether a forward has recipients, and every one of them has a valid address.
pub open spec fn recipients_valid(recipients: Seq<Seq<char>>) -> bool {
    recipients.len() > 0 && forall|i: int| 0 <= i < recipients.len() ==> valid_address(#[trigger] recipients[i])
}

/// Whether a forward has recipients, and every one of them has a valid address. The
/// addresses are those of all three fields.
pub fn quick_forward_recipients_valid(recipients: &Vec<String>) -> (valid: bool)
    ensures
        valid == recipients_valid(recipients.deep_view()),
{
    let ghost all = recipients.deep_view();
    let mut i: usize = 0;
    while i < recipients.len()
        invariant
            i <= recipients.len(),
            all == recipients.deep_view(),
            forall|j: int| 0 <= j < i ==> valid_address(#[trigger] all[j]),
        decreases recipients.len() - i,
    {
        assert(all[i as int] == recipients[i as int]@);
        if !address_is_valid(&recipients[i]) {
            return false;
        }
        i += 1;
    }
    recipients.len() > 0
}

/// Whether a block shows anything.
pub open spec fn block_says() -> spec_fn(BlockView) -> bool {
    |block: BlockView|
        match block.kind {
            BlockKindView::Paragraph { text } => trimmed(text).len() > 0,
            BlockKindView::Other { .. } => true,
        }
}

/// Whether a reply says anything.
pub fn quick_reply_body_valid(reply: &QuickReply) -> (valid: bool)
    ensures
        valid == reply.deep_view().body_blocks.any(block_says()),
{
    any_where(
        &reply.body_blocks,
        |block: &Block| -> (says: bool)
            ensures
                says == block_says()(block.deep_view())
            {
            match &block.kind {
                BlockKind::Paragraph { text } => !trim(text.as_str()).as_str().is_empty(),
                BlockKind::Other { .. } => true,
            }
        },
        Ghost(block_says()),
    )
}

/// Whether an image goes by the given name.
pub open spec fn image_named(cid: Seq<char>) -> spec_fn(InlineImageView) -> bool {
    |image: InlineImageView| image.cid == cid
}

/// `target` and then the images of `source` whose names are not taken yet.
pub open spec fn merged_images(target: Seq<InlineImageView>, source: Seq<InlineImageView>) -> Seq<InlineImageView>
    decreases source.len(),
{
    if source.len() == 0 {
        target
    } else {
        let front = merged_images(target, source.drop_last());
        if front.any(image_named(source.last().cid)) {
            front
        } else {
            front.push(source.last())
        }
    }
}

/// Adds the images whose names are not taken yet.
pub fn merge_images(target: &mut Vec<InlineImage>, source: &Vec<InlineImage>)
    ensures
        final(target).deep_view() == merged_images(old(target).deep_view(), source.deep_view()),
{
    let ghost start = target.deep_view();
    let ghost all = source.deep_view();
    let mut i: usize = 0;
    assert(all.take(0) =~= Seq::empty());
    while i < source.len()
        invariant
            i <= source.len(),
            all == source.deep_view(),
            target.deep_view() == merged_images(start, all.take(i as int)),
        decreases source.len() - i,
    {
        let ghost before = target.deep_view();
        let image = &source[i];
        assert(all[i as int] == image.deep_view());
        assert(all.take(i + 1).drop_last() =~= all.take(i as int));
        let taken = any_where(
            &*target,
            |item: &InlineImage| -> (same: bool)
                ensures
                    same == (item.deep_view().cid == image.cid@)
                { item.cid == image.cid },
            Ghost(image_named(image.cid@)),
        );
        if !taken {
            target.push(image.clone());
            assert(target.deep_view() =~= before.push(all[i as int]));
        }
        i += 1;
    }
    assert(all.take(all.len() as int) =~= all);
}

/// Blocks numbered from one.
pub open spec fn numbered(kinds: Seq<BlockKindView>) -> Seq<BlockView> {
    Seq::new(kinds.len(), |i: int| BlockView { id: (i + 1) as u64, kind: kinds[i] })
}

/// The kinds of blocks.
pub open spec fn kinds_of(blocks: Seq<BlockView>) -> Seq<BlockKindView> {
    blocks.map_values(|block: BlockView| block.kind)
}

/// Whether a signature is the default one.
pub open spec fn is_default_signature() -> spec_fn(SignatureView) -> bool {
    |signature: SignatureView| signature.is_default
}

/// The default signature of an account.
pub open spec fn default_signature(signatures: Seq<SignatureView>) -> Option<SignatureView> {
    first_where(signatures, is_default_signature())
}

/// The body of a mail: the words of the recipe, the signature, and what is quoted.
pub open spec fn mail_blocks(words: Seq<BlockView>, signatures: Seq<SignatureView>, quoted: Seq<BlockKindView>) -> Seq<
    BlockView,
> {
    numbered(
        kinds_of(words) + (match default_signature(signatures) {
            Some(signature) => kinds_of(signature.blocks),
            None => Seq::empty(),
        }) + quoted,
    )
}

/// The images that a mail may show.
pub open spec fn mail_images(
    words: Seq<InlineImageView>,
    signatures: Seq<SignatureView>,
    quoted: Seq<InlineImageView>,
) -> Seq<InlineImageView> {
    merged_images(
        match default_signature(signatures) {
            Some(signature) => merged_images(words, signature.images),
            None => words,
        },
        quoted,
    )
}

/// Appends the kinds of blocks.
fn push_kinds(kinds: &mut Vec<BlockKind>, blocks: &Vec<Block>)
    ensures
        final(kinds).deep_view() == old(kinds).deep_view() + kinds_of(blocks.deep_view()),
{
    let ghost start = kinds.deep_view();
    let ghost all = blocks.deep_view();
    let mut i: usize = 0;
    assert(kinds.deep_view() =~= start + kinds_of(all.take(0)));
    while i < blocks.len()
        invariant
            i <= blocks.len(),
            all == blocks.deep_view(),
            kinds.deep_view() == start + kinds_of(all.take(i as int)),
        decreases blocks.len() - i,
    {
        let ghost before = kinds.deep_view();
        assert(all[i as int] == blocks[i as int].deep_view());
        kinds.push(blocks[i].kind.clone());
        assert(kinds.deep_view() =~= before.push(all[i as int].kind));
        assert(kinds.deep_view() =~= start + kinds_of(all.take(i + 1)));
        i += 1;
    }
    assert(all.take(all.len() as int) =~= all);
}

/// Numbers blocks from one.
fn number_blocks(kinds: &Vec<BlockKind>) -> (blocks: Vec<Block>)
    ensures
        blocks.deep_view() == numbered(kinds.deep_view()),
{
    let mut blocks: Vec<Block> = Vec::new();
    let mut i: usize = 0;
    while i < kinds.len()
        invariant
            i <= kinds.len(),
            blocks.len() == i,
            forall|j: int|
                0 <= j < i ==> (#[trigger] blocks[j]).deep_view() == (BlockView {
                    id: (j + 1) as u64,
                    kind: kinds[j].deep_view(),
                }),
        decreases kinds.len() - i,
    {
        blocks.push(Block { id: i as u64 + 1, kind: kinds[i].clone() });
        i += 1;
    }
    assert(blocks.deep_view() =~= numbered(kinds.deep_view()));
    blocks
}

/// The default signature of an account.
fn find_signature(signatures: &Vec<Signature>) -> (found: Option<&Signature>)
    ensures
        found.deep_view() == default_signature(signatures.deep_view()),
{
    let found = position_where(
        signatures,
        |signature: &Signature| -> (yes: bool)
            ensures
                yes == signature.deep_view().is_default
            { signature.is_default },
        Ghost(is_default_signature()),
    );
    match found {
        Some(i) => {
            assert(signatures.deep_view()[i as int] == signatures[i as int].deep_view());
            Some(&signatures[i])
        },
        None => None,
    }
}

/// Puts the body of a mail together.
fn build_blocks(words: &Vec<Block>, signatures: &Vec<Signature>, quoted: &Vec<BlockKind>) -> (blocks: Vec<Block>)
    ensures
        blocks.deep_view() == mail_blocks(words.deep_view(), signatures.deep_view(), quoted.deep_view()),
{
    let mut kinds: Vec<BlockKind> = Vec::new();
    push_kinds(&mut kinds, words);
    assert(kinds.deep_view() =~= kinds_of(words.deep_view()));
    let ghost spoken = kinds.deep_view();
    if let Some(signature) = find_signature(signatures) {
        push_kinds(&mut kinds, &signature.blocks);
    } else {
        assert(kinds.deep_view() =~= spoken + Seq::<BlockKindView>::empty());
    }
    let ghost front = kinds.deep_view();
    let mut tail = clone_list(quoted);
    let ghost back = tail.deep_view();
    kinds.append(&mut tail);
    assert(kinds.deep_view() =~= front + back);
    number_blocks(&kinds)
}

/// Puts the images of a mail together.
fn build_images(words: &Vec<InlineImage>, signatures: &Vec<Signature>, quoted: &Vec<InlineImage>) -> (images: Vec<
    InlineImage,
>)
    ensures
        images.deep_view() == mail_images(words.deep_view(), signatures.deep_view(), quoted.deep_view()),
{
    let mut images = clone_list(words);
    if let Some(signature) = find_signature(signatures) {
        merge_images(&mut images, &signature.images);
    }
    merge_images(&mut images, quoted);
    images
}

/// The mail that a recipe forwards.
pub open spec fn forward_mail(
    forward: QuickForwardView,
    signatures: Seq<SignatureView>,
    message: MessageView,
    quoted: QuotedMailView,
) -> OutgoingDraftView {
    OutgoingDraftView {
        to: forward.to,
        cc: forward.cc,
        bcc: forward.bcc,
        subject: quoted.subject,
        blocks: mail_blocks(forward.note_blocks, signatures, quoted.kinds),
        images: mail_images(forward.note_images, signatures, message.inline_images),
        files: message.attachments,
    }
}

/// The mail that a recipe answers with.
pub open spec fn reply_mail(
    reply: QuickReplyView,
    signatures: Seq<SignatureView>,
    message: MessageView,
    quoted: QuotedMailView,
) -> OutgoingDraftView {
    OutgoingDraftView {
        to: quoted.to,
        cc: quoted.cc,
        bcc: quoted.bcc,
        subject: quoted.subject,
        blocks: mail_blocks(reply.body_blocks, signatures, quoted.kinds),
        images: mail_images(reply.body_images, signatures, message.inline_images),
        files: Seq::empty(),
    }
}

/// Writes the mail that a recipe forwards.
pub fn build_quick_forward(
    forward: &QuickForward,
    signatures: &Vec<Signature>,
    message: &Message,
    quoted: &QuotedMail,
) -> (mail: OutgoingDraft)
    ensures
        mail.deep_view() == forward_mail(
            forward.deep_view(),
            signatures.deep_view(),
            message.deep_view(),
            quoted.deep_view(),
        ),
        mail.to@ == forward.to@,
        mail.cc@ == forward.cc@,
        mail.bcc@ == forward.bcc@,
        mail.subject@ == quoted.subject@,
        mail.files.deep_view() == message.attachments.deep_view(),
{
    OutgoingDraft {
        to: forward.to.clone(),
        cc: forward.cc.clone(),
        bcc: forward.bcc.clone(),
        subject: quoted.subject.clone(),
        blocks: build_blocks(&forward.note_blocks, signatures, &quoted.kinds),
        images: build_images(&forward.note_images, signatures, &message.inline_images),
        files: clone_list(&message.attachments),
    }
}

/// Writes the mail that a recipe answers with.
pub fn build_quick_reply(
    reply: &QuickReply,
    signatures: &Vec<Signature>,
    message: &Message,
    quoted: &QuotedMail,
) -> (mail: OutgoingDraft)
    ensures
        mail.deep_view() == reply_mail(
            reply.deep_view(),
            signatures.deep_view(),
            message.deep_view(),
            quoted.deep_view(),
        ),
        mail.to@ == quoted.to@,
        mail.cc@ == quoted.cc@,
        mail.bcc@ == quoted.bcc@,
        mail.subject@ == quoted.subject@,
        mail.files.len() == 0,
{
    let mail = OutgoingDraft {
        to: quoted.to.clone(),
        cc: quoted.cc.clone(),
        bcc: quoted.bcc.clone(),
        subject: quoted.subject.clone(),
        blocks: build_blocks(&reply.body_blocks, signatures, &quoted.kinds),
        images: build_images(&reply.body_images, signatures, &message.inline_images),
        files: Vec::new(),
    };
    assert(mail.files.deep_view() =~= Seq::empty());
    mail
}

/// Whether a step sends a mail.
pub open spec fn step_sends() -> spec_fn(QuickActionStepView) -> bool {
    |step: QuickActionStepView| step is Forward || step is Reply
}

/// Whether an execution sends a mail.
pub fn quick_action_sends(execution: &QuickActionExecution) -> (sends: bool)
    ensures
        sends == execution.deep_view().steps.any(step_sends()),
{
    any_where(
        &execution.steps,
        |step: &QuickActionStep| -> (sends: bool)
            ensures
                sends == step_sends()(step.deep_view())
            {
            match step {
                QuickActionStep::Forward { .. } => true,
                QuickActionStep::Reply { .. } => true,
                _ => false,
            }
        },
        Ghost(step_sends()),
    )
}

/// Executions and composers are never taken for one another: an id below the mark is no
/// execution, and every execution has the mark.
pub proof fn law_executions_are_told_apart(seq: u64, compose_id: u64)
    ensures
        is_execution(execution_id(seq)),
        compose_id < QUICK_ACTION_EXECUTION_BIT ==> !is_execution(compose_id) && execution_id(seq) != compose_id,
{
}

/// Names of images stay unique: merging adds no image whose name is taken.
pub proof fn law_merged_images_keep_their_names(target: Seq<InlineImageView>, source: Seq<InlineImageView>)
    ensures
        target.is_prefix_of(merged_images(target, source)),
        forall|i: int|
            #![trigger source[i]]
            0 <= i < source.len() ==> merged_images(target, source).any(image_named(source[i].cid)),
        forall|i: int, j: int|
            #![trigger merged_images(target, source)[i], merged_images(target, source)[j]]
            target.len() <= j < merged_images(target, source).len() && 0 <= i < j ==> merged_images(
                target,
                source,
            )[i].cid != merged_images(target, source)[j].cid,
    decreases source.len(),
{
    if source.len() > 0 {
        let init = source.drop_last();
        law_merged_images_keep_their_names(target, init);
        let front = merged_images(target, init);
        let all = merged_images(target, source);
        let last = source.last();
        assert forall|i: int| #![trigger source[i]] 0 <= i < source.len() implies all.any(
            image_named(source[i].cid),
        ) by {
            let test = image_named(source[i].cid);
            if i < init.len() {
                assert(init[i] == source[i]);
                assert(front.any(test));
                let k = choose|k: int| 0 <= k < front.len() && #[trigger] test(front[k]);
                assert(all[k] == front[k]);
                assert(test(all[k]));
            } else if !front.any(test) {
                assert(all[front.len() as int] == last);
                assert(test(all[front.len() as int]));
            }
        }
        assert forall|i: int, j: int|
            #![trigger all[i], all[j]]
            target.len() <= j < all.len() && 0 <= i < j implies all[i].cid != all[j].cid by {
            if j == front.len() {
                let test = image_named(last.cid);
                assert(!front.any(test));
                assert(!test(front[i]));
            }
        }
    }
}

} // verus!
