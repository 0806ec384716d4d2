//! Quick actions on messages: when they may run, what they schedule, and how they end.
use crate::app::{holds_account, is_text, told};
use crate::folder_events::{folder_named, folders_of};
use crate::headers::{holds_message, is_message};
use crate::list_entries::holds_text;
use crate::lists::{any_where, first_where, lemma_first_index, map_each, position_where, retain_where, take_list};
use crate::mailbox_events::in_results;
use crate::model::{AccountId, MailFolder, MessageHeader, MessageHeaderView, MessageRef, MessageRefView, TagView};
use crate::reading::{in_selected, map_selected};
use crate::recipes::{
    block_says, build_quick_forward, build_quick_reply, execution_id, execution_of, forward_mail, next_seq,
    quick_action_sends, quick_forward_recipients_valid, quick_reply_body_valid, recipients_valid, reply_mail, step_sends,
    QuotedMail, QuotedMailView,
};
use crate::settings::{QuickAction, QuickActionView};
use crate::state::{
    AviaryApp, Effect, EffectView, MailboxState, Message, MessageView, Notice, NoticeText, NoticeTextView, NoticeView,
    Offer, PendingQuickAction, PendingQuickActionView, QuickActionExecution, QuickActionExecutionView, QuickActionState, QuickActionStep,
    QuickActionStepView, SearchState, ToastKind, Topic, TopicView, ViewerState, Shortened, ShortenedView,
};
use crate::tag_events::tags_of;
use crate::text::trim;
use crate::navigation::lemma_filter_accepts;
use crate::navigation::lemma_filter_holds;
use vstd::prelude::*;

verus! {

/// Whether a quick action has the given id.
pub open spec fn action_with_id(id: i64) -> spec_fn(QuickActionView) -> bool {
    |action: QuickActionView| action.id == id
}

/// The tags of `ids` that a test accepts, each as a step.
pub open spec fn tag_steps(ids: Seq<Seq<char>>, test: spec_fn(Seq<char>) -> bool, adds: bool) -> Seq<QuickActionStepView> {
    ids.filter(test).map_values(
        |tag_id: Seq<char>|
            if adds {
                QuickActionStepView::AddTag { tag_id }
            } else {
                QuickActionStepView::RemoveTag { tag_id }
            },
    )
}

/// The later of two delays.
pub open spec fn longer(a: u32, b: u32) -> u32 {
    if a >= b {
        a
    } else {
        b
    }
}

/// A notification about an execution.
pub open spec fn execution_told(kind: ToastKind, text: NoticeTextView, stays: bool, id: u64, offer: Offer) -> EffectView {
    EffectView::Toast {
        notice: NoticeView {
            kind,
            text,
            detail: None,
            stays,
            topic: TopicView::QuickAction { execution_id: id },
            offer,
        },
    }
}

/// A button of a quick action.
#[derive(Debug, Clone, Copy, PartialEq, Eq, Structural)]
pub struct QuickButton {
    pub action_id: i64,
    pub enabled: bool,
}

/// A state of a message that a step reports: what it did not touch is `None`.
pub open spec fn with_state(header: MessageHeaderView, read: Option<bool>, flagged: Option<bool>) -> MessageHeaderView {
    MessageHeaderView {
        is_read: match read {
            Some(read) => read,
            None => header.is_read,
        },
        is_flagged: match flagged {
            Some(flagged) => flagged,
            None => header.is_flagged,
        },
        ..header
    }
}

/// The header of one message in a new state.
pub open spec fn state_of(reference: MessageRefView, read: Option<bool>, flagged: Option<bool>) -> spec_fn(
    MessageHeaderView,
) -> MessageHeaderView {
    |header: MessageHeaderView|
        if header.reference() == reference {
            with_state(header, read, flagged)
        } else {
            header
        }
}

/// One message in a new state.
pub open spec fn message_state(reference: MessageRefView, read: Option<bool>, flagged: Option<bool>) -> spec_fn(
    MessageView,
) -> MessageView {
    |message: MessageView|
        if message.header.reference() == reference {
            MessageView { header: with_state(message.header, read, flagged), ..message }
        } else {
            message
        }
}

/// Whether an action waits under another number.
pub open spec fn other_request(id: u64) -> spec_fn(PendingQuickActionView) -> bool {
    |pending: PendingQuickActionView| pending.request_id != id
}

/// Whether an action waits under the given number.
pub open spec fn waits_under(id: u64) -> spec_fn(PendingQuickActionView) -> bool {
    |pending: PendingQuickActionView| pending.request_id == id
}

/// Drops what waits under a number.
fn drop_request(pending: &mut Vec<PendingQuickAction>, id: u64)
    ensures
        final(pending).deep_view() == old(pending).deep_view().filter(other_request(id)),
{
    let taken = take_list(pending);
    *pending = retain_where(
        taken,
        |action: &PendingQuickAction| -> (keep: bool)
            ensures
                keep == (action.deep_view().request_id != id)
            { action.request_id != id },
        Ghost(other_request(id)),
    );
}

impl AviaryApp {
    /// The quick actions of an account.
    pub open spec fn actions_of(self, account_id: Seq<char>) -> Seq<QuickActionView> {
        if self.settings.accounts@.contains_key(account_id) {
            self.settings.accounts@[account_id].deep_view().quick_actions
        } else {
            Seq::empty()
        }
    }

    /// The quick actions of an account, if it has settings.
    pub fn quick_actions_for(&self, account_id: &AccountId) -> (actions: Option<&Vec<QuickAction>>)
        ensures
            match actions {
                Some(actions) => actions.deep_view() == self.actions_of(account_id.0@),
                None => self.actions_of(account_id.0@) == Seq::<QuickActionView>::empty(),
            },
    {
        match self.settings.accounts.get(account_id) {
            Some(settings) => Some(&settings.quick_actions),
            None => None,
        }
    }

    /// Whether an account has a tag.
    pub open spec fn has_tag(self, account_id: Seq<char>, id: Seq<char>) -> bool {
        tags_of(self.tags.by_account, account_id).any(crate::kanban::tag_has_id(id))
    }

    /// Whether an account has all the given tags.
    pub open spec fn has_tags(self, account_id: Seq<char>, ids: Seq<Seq<char>>) -> bool {
        forall|i: int| 0 <= i < ids.len() ==> self.has_tag(account_id, #[trigger] ids[i])
    }

    /// Whether an account has a folder.
    pub open spec fn has_folder(self, account_id: Seq<char>, id: Seq<char>) -> bool {
        folders_of(self.mailbox.folders_by_account, account_id).any(folder_named(id))
    }

    /// Whether a quick action can run: it has a name and steps that do not contradict one
    /// another, its tags and its folder exist, and what it sends has recipients and words.
    pub open spec fn action_valid(self, account_id: Seq<char>, action: QuickActionView, recipients: Seq<Seq<char>>) -> bool {
        &&& crate::text::trimmed(action.name).len() > 0
        &&& action.has_steps()
        &&& action.targets_are_disjoint()
        &&& action.sends_at_most_once()
        &&& match action.reply {
            Some(reply) => reply.body_blocks.any(block_says()),
            None => true,
        }
        &&& self.has_tags(account_id, action.add_tags)
        &&& self.has_tags(account_id, action.remove_tags)
        &&& match action.move_to_folder_id {
            Some(id) => self.has_folder(account_id, id),
            None => true,
        }
        &&& action.forward is Some ==> recipients_valid(recipients)
    }

    fn tag_exists(&self, account_id: &AccountId, id: &String) -> (found: bool)
        ensures
            found == self.has_tag(account_id.0@, id@),
    {
        match self.tags.by_account.get(account_id) {
            Some(tags) => {
                proof {
                    lemma_first_index(tags.deep_view(), crate::kanban::tag_has_id(id@));
                }
                crate::kanban::tag_position(tags, id.as_str()).is_some()
            },
            None => {
                assert(!Seq::<TagView>::empty().any(crate::kanban::tag_has_id(id@)));
                false
            },
        }
    }

    fn tags_exist(&self, account_id: &AccountId, ids: &Vec<String>) -> (all: bool)
        ensures
            all == self.has_tags(account_id.0@, ids.deep_view()),
    {
        let mut i: usize = 0;
        while i < ids.len()
            invariant
                i <= ids.len(),
                forall|j: int| 0 <= j < i ==> self.has_tag(account_id.0@, #[trigger] ids.deep_view()[j]),
            decreases ids.len() - i,
        {
            assert(ids.deep_view()[i as int] == ids[i as int]@);
            if !self.tag_exists(account_id, &ids[i]) {
                return false;
            }
            i += 1;
        }
        true
    }

    fn folder_exists(&self, account_id: &AccountId, id: &String) -> (found: bool)
        ensures
            found == self.has_folder(account_id.0@, id@),
    {
        match self.mailbox.folders_by_account.get(account_id) {
            Some(folders) => any_where(
                folders,
                |folder: &MailFolder| -> (same: bool)
                    ensures
                        same == (folder.deep_view().id == id@)
                    { folder.id == *id },
                Ghost(folder_named(id@)),
            ),
            None => {
                assert(!Seq::<crate::model::MailFolderView>::empty().any(folder_named(id@)));
                false
            },
        }
    }

    /// Whether a quick action can run; `recipients` are the addresses that it forwards to.
    pub fn quick_action_is_valid(&self, account_id: &AccountId, action: &QuickAction, recipients: &Vec<String>) -> (valid: bool)
        ensures
            valid == self.action_valid(account_id.0@, action.deep_view(), recipients.deep_view()),
    {
        if trim(action.name.as_str()).as_str().is_empty() || !action.has_steps() || !action.targets_are_disjoint()
            || !action.sends_at_most_once() {
            return false;
        }
        if let Some(reply) = &action.reply {
            if !quick_reply_body_valid(reply) {
                return false;
            }
        }
        let tags_valid = self.tags_exist(account_id, &action.add_tags) && self.tags_exist(
            account_id,
            &action.remove_tags,
        );
        let folder_valid = match &action.move_to_folder_id {
            Some(id) => self.folder_exists(account_id, id),
            None => true,
        };
        let forward_valid = action.forward.is_none() || quick_forward_recipients_valid(recipients);
        tags_valid && folder_valid && forward_valid
    }

    /// Whether a message carries a tag.
    pub open spec fn carries(self, header: MessageHeaderView, tag_id: Seq<char>) -> bool {
        header.tags.contains(self.message_key(header.account_id, tag_id))
    }

    /// Whether a message carries a tag, whichever key it goes by on messages.
    pub fn header_has_native_tag(&self, header: &MessageHeader, tag_id: &String) -> (yes: bool)
        ensures
            yes == self.carries(header.deep_view(), tag_id@),
    {
        let key = self.tag_key(&header.account_id, tag_id);
        holds_text(&header.tags, &key)
    }

    /// The tags that a message carries, as a test.
    pub open spec fn carried(self, header: MessageHeaderView) -> spec_fn(Seq<char>) -> bool {
        |tag_id: Seq<char>| self.carries(header, tag_id)
    }

    /// The tags that a message does not carry, as a test.
    pub open spec fn not_carried(self, header: MessageHeaderView) -> spec_fn(Seq<char>) -> bool {
        |tag_id: Seq<char>| !self.carries(header, tag_id)
    }

    /// The mail that an action sends about a message, as a step.
    pub open spec fn mail_steps(self, action: QuickActionView, mail: Option<(MessageView, QuotedMailView)>) -> Seq<
        QuickActionStepView,
    > {
        match mail {
            None => Seq::empty(),
            Some((message, quoted)) => {
                let signatures = self.settings.account_view(message.header.account_id).signatures;
                match (action.forward, action.reply) {
                    (Some(forward), _) => seq![
                        QuickActionStepView::Forward { mail: forward_mail(forward, signatures, message, quoted) },
                    ],
                    (None, Some(reply)) => seq![
                        QuickActionStepView::Reply {
                            mail: reply_mail(reply, signatures, message, quoted),
                            reply_all: reply.reply_all,
                        },
                    ],
                    (None, None) => Seq::empty(),
                }
            },
        }
    }

    /// The changes of read and flagged state that an action makes to a message.
    pub open spec fn mark_steps(action: QuickActionView, header: MessageHeaderView) -> Seq<QuickActionStepView> {
        (match action.mark_read {
            Some(read) if read != header.is_read => seq![QuickActionStepView::MarkRead { read }],
            _ => Seq::empty(),
        }) + (match action.set_flagged {
            Some(flagged) if flagged != header.is_flagged => seq![QuickActionStepView::SetFlag { flagged }],
            _ => Seq::empty(),
        })
    }

    /// The move that an action makes.
    pub open spec fn move_steps(action: QuickActionView, source: Option<Seq<char>>) -> Seq<QuickActionStepView> {
        match action.move_to_folder_id {
            Some(target_folder_id) if source != Some(target_folder_id) => seq![
                QuickActionStepView::Move { source_folder_id: source, target_folder_id },
            ],
            _ => Seq::empty(),
        }
    }

    /// The steps that an action comes down to for a message: what it sends, and then only
    /// what differs from the state of the message.
    pub open spec fn steps_of(
        self,
        action: QuickActionView,
        header: MessageHeaderView,
        source: Option<Seq<char>>,
        mail: Option<(MessageView, QuotedMailView)>,
    ) -> Seq<QuickActionStepView> {
        self.mail_steps(action, mail) + tag_steps(action.remove_tags, self.carried(header), false) + tag_steps(
            action.add_tags,
            self.not_carried(header),
            true,
        ) + Self::mark_steps(action, header) + Self::move_steps(action, source)
    }

    /// Appends the steps for tags.
    fn push_tag_steps(&self, steps: &mut Vec<QuickActionStep>, header: &MessageHeader, ids: &Vec<String>, adds: bool)
        ensures
            final(steps).deep_view() == old(steps).deep_view() + tag_steps(
                ids.deep_view(),
                if adds {
                    self.not_carried(header.deep_view())
                } else {
                    self.carried(header.deep_view())
                },
                adds,
            ),
    {
        let ghost start = steps.deep_view();
        let ghost all = ids.deep_view();
        let ghost test = if adds {
            self.not_carried(header.deep_view())
        } else {
            self.carried(header.deep_view())
        };
        let mut i: usize = 0;
        proof {
            reveal(Seq::filter);
            assert(steps.deep_view() =~= start + tag_steps(all.take(0), test, adds));
        }
        while i < ids.len()
            invariant
                i <= ids.len(),
                all == ids.deep_view(),
                test == (if adds {
                    self.not_carried(header.deep_view())
                } else {
                    self.carried(header.deep_view())
                }),
                steps.deep_view() == start + tag_steps(all.take(i as int), test, adds),
            decreases ids.len() - i,
        {
            let ghost before = steps.deep_view();
            proof {
                reveal(Seq::filter);
                assert(all[i as int] == ids[i as int]@);
                assert(all.take(i + 1).drop_last() =~= all.take(i as int));
            }
            let carries = self.header_has_native_tag(header, &ids[i]);
            if carries != adds {
                let step = if adds {
                    QuickActionStep::AddTag { tag_id: ids[i].clone() }
                } else {
                    QuickActionStep::RemoveTag { tag_id: ids[i].clone() }
                };
                let ghost shown = step.deep_view();
                steps.push(step);
                assert(steps.deep_view() =~= before.push(shown));
                assert(before.push(shown) =~= start + tag_steps(all.take(i + 1), test, adds));
            }
            i += 1;
        }
        assert(all.take(all.len() as int) =~= all);
    }

    /// The steps that an action comes down to for a message.
    pub fn quick_action_steps(
        &self,
        action: &QuickAction,
        header: &MessageHeader,
        source_folder_id: Option<String>,
        mail: Option<(Message, QuotedMail)>,
    ) -> (steps: Vec<QuickActionStep>)
        ensures
            steps.deep_view() == self.steps_of(
                action.deep_view(),
                header.deep_view(),
                source_folder_id.deep_view(),
                mail.deep_view(),
            ),
    {
        let ghost wanted = action.deep_view();
        let ghost shown = header.deep_view();
        let mut steps: Vec<QuickActionStep> = Vec::new();
        assert(steps.deep_view() =~= Seq::empty());
        if let Some(mail) = &mail {
            let settings = self.settings.account_or_default(Some(&mail.0.header.account_id));
            if let Some(forward) = &action.forward {
                steps.push(
                    QuickActionStep::Forward {
                        mail: build_quick_forward(forward, &settings.signatures, &mail.0, &mail.1),
                    },
                );
            } else if let Some(reply) = &action.reply {
                steps.push(
                    QuickActionStep::Reply {
                        mail: build_quick_reply(reply, &settings.signatures, &mail.0, &mail.1),
                        reply_all: reply.reply_all,
                    },
                );
            }
        }
        assert(steps.deep_view() =~= self.mail_steps(wanted, mail.deep_view()));
        self.push_tag_steps(&mut steps, header, &action.remove_tags, false);
        self.push_tag_steps(&mut steps, header, &action.add_tags, true);
        let ghost tagged = steps.deep_view();
        if let Some(read) = action.mark_read {
            if read != header.is_read {
                steps.push(QuickActionStep::MarkRead { read });
            }
        }
        if let Some(flagged) = action.set_flagged {
            if flagged != header.is_flagged {
                steps.push(QuickActionStep::SetFlag { flagged });
            }
        }
        assert(steps.deep_view() =~= tagged + Self::mark_steps(wanted, shown));
        let ghost marked = steps.deep_view();
        if let Some(target) = &action.move_to_folder_id {
            if !is_text(&source_folder_id, target) {
                steps.push(QuickActionStep::Move { source_folder_id, target_folder_id: target.clone() });
            }
        }
        assert(steps.deep_view() =~= marked + Self::move_steps(wanted, source_folder_id.deep_view()));
        steps
    }

    /// How long an execution waits: one that sends waits at least as long as a mail does.
    pub open spec fn delay_of(self, steps: Seq<QuickActionStepView>) -> u32 {
        let delay = self.settings.global.action_delay();
        if steps.any(step_sends()) {
            longer(delay, self.settings.global.send_delay_secs)
        } else {
            delay
        }
    }

    fn execution_delay(&self, execution: &QuickActionExecution) -> (delay: u32)
        ensures
            delay == self.delay_of(execution.deep_view().steps),
    {
        let delay: u32 = self.settings.global.effective_action_delay_secs();
        if quick_action_sends(execution) && delay < self.settings.global.send_delay_secs {
            self.settings.global.send_delay_secs
        } else {
            delay
        }
    }

    /// What is asked for to queue an execution.
    pub open spec fn queue_asks(account_id: Seq<char>, execution: QuickActionExecutionView, delay_secs: u32) -> Seq<EffectView> {
        seq![
            EffectView::BeginQuickAction { account_id, execution },
            EffectView::ScheduleQuickAction { account_id, execution, delay_secs },
            execution_told(
                ToastKind::Info,
                NoticeTextView::NamedDelay {
                    key: "quick-actions-pending"@,
                    name: execution.action_name,
                    seconds: delay_secs,
                },
                true,
                execution.execution_id,
                Offer::CancelQuickAction,
            ),
        ]
    }

    /// Queues an execution: its effect is shown at once, and can be cancelled while it
    /// waits.
    fn queue_quick_action(&mut self, account_id: AccountId, execution: QuickActionExecution, delay: u32)
        ensures
            final(self).asked(*old(self), Self::queue_asks(account_id.0@, execution.deep_view(), delay)),
            *final(self) == (AviaryApp { effects: final(self).effects, ..*old(self) }),
    {
        let ghost start = self.effects.deep_view();
        let id: u64 = execution.execution_id;
        let name = execution.action_name.clone();
        self.send(Effect::BeginQuickAction { account_id: account_id.clone(), execution: execution.clone() });
        self.send(Effect::ScheduleQuickAction { account_id, execution, delay_secs: delay });
        self.tell_execution(
            ToastKind::Info,
            NoticeText::NamedDelay { key: "quick-actions-pending", name, seconds: delay },
            true,
            id,
            Offer::CancelQuickAction,
        );
        assert(self.effects.deep_view() =~= start + Self::queue_asks(account_id.0@, execution.deep_view(), delay));
    }

    /// Shows a notification about an execution.
    fn tell_execution(&mut self, kind: ToastKind, text: NoticeText, stays: bool, id: u64, offer: Offer)
        ensures
            final(self).asked(*old(self), seq![execution_told(kind, text.deep_view(), stays, id, offer)]),
            *final(self) == (AviaryApp { effects: final(self).effects, ..*old(self) }),
    {
        self.send(
            Effect::Toast {
                notice: Notice { kind, text, detail: None, stays, topic: Topic::QuickAction { execution_id: id }, offer },
            },
        );
    }

    /// Takes the next number.
    fn next_number(&mut self) -> (seq: u64)
        ensures
            seq == next_seq(old(self).quick_actions.seq),
            *final(self) == (AviaryApp {
                quick_actions: QuickActionState { seq, ..old(self).quick_actions },
                ..*old(self)
            }),
    {
        let seq: u64 = if self.quick_actions.seq == u64::MAX {
            0
        } else {
            self.quick_actions.seq + 1
        };
        self.quick_actions.seq = seq;
        seq
    }

    /// Runs what an execution left undone, under an id of its own.
    pub fn retry_quick_action(&mut self, account_id: AccountId, execution: QuickActionExecution)
        ensures
            ({
                let seq = next_seq(old(self).quick_actions.seq);
                let renewed = QuickActionExecutionView {
                    execution_id: execution_id(seq),
                    ..execution.deep_view()
                };
                &&& final(self).asked(
                    *old(self),
                    Self::queue_asks(account_id.0@, renewed, old(self).delay_of(renewed.steps)),
                )
                &&& *final(self) == (AviaryApp {
                    quick_actions: QuickActionState { seq, ..old(self).quick_actions },
                    effects: final(self).effects,
                    ..*old(self)
                })
            }),
    {
        let seq: u64 = self.next_number();
        let mut execution = execution;
        execution.execution_id = execution_of(seq);
        let delay: u32 = self.execution_delay(&execution);
        self.queue_quick_action(account_id, execution, delay);
    }

    /// An action was scheduled for a message; one without steps is not.
    pub open spec fn scheduled(
        self,
        after: AviaryApp,
        action: QuickActionView,
        header: MessageHeaderView,
        source: Option<Seq<char>>,
        mail: Option<(MessageView, QuotedMailView)>,
    ) -> bool {
        let seq = next_seq(self.quick_actions.seq);
        let steps = self.steps_of(action, header, source, mail);
        &&& after.asked(
            self,
            if steps.len() == 0 {
                Seq::empty()
            } else {
                Self::queue_asks(
                    header.account_id,
                    QuickActionExecutionView {
                        execution_id: execution_id(seq),
                        action_name: action.name,
                        message_id: header.id,
                        steps,
                    },
                    self.delay_of(steps),
                )
            },
        )
        &&& after == (AviaryApp {
            quick_actions: QuickActionState { seq, ..self.quick_actions },
            effects: after.effects,
            ..self
        })
    }

    /// Schedules an action for a message.
    pub fn schedule_quick_action(
        &mut self,
        action: QuickAction,
        header: MessageHeader,
        source_folder_id: Option<String>,
        mail: Option<(Message, QuotedMail)>,
    )
        ensures
            old(self).scheduled(
                *final(self),
                action.deep_view(),
                header.deep_view(),
                source_folder_id.deep_view(),
                mail.deep_view(),
            ),
    {
        let ghost start = *self;
        let steps = self.quick_action_steps(&action, &header, source_folder_id, mail);
        let seq: u64 = self.next_number();
        assert(steps.deep_view().len() == steps.len());
        assert(self.effects.deep_view() =~= start.effects.deep_view() + Seq::<EffectView>::empty());
        if steps.len() == 0 {
            return;
        }
        let execution = QuickActionExecution {
            execution_id: execution_of(seq),
            action_name: action.name,
            message_id: header.id,
            steps,
        };
        let delay: u32 = self.execution_delay(&execution);
        self.queue_quick_action(header.account_id, execution, delay);
    }

    /// The header of a message that is listed, found or on display.
    pub open spec fn known_header(self, reference: MessageRefView) -> Option<MessageHeaderView> {
        match first_where(self.mailbox.messages.deep_view(), is_message(reference)) {
            Some(header) => Some(header),
            None => match self.found_header(reference) {
                Some(header) => Some(header),
                None => match self.displayed() {
                    Some(message) => if message.header.reference() == reference {
                        Some(message.header)
                    } else {
                        None
                    },
                    None => None,
                },
            },
        }
    }

    /// The header of a message among the results.
    pub open spec fn found_header(self, reference: MessageRefView) -> Option<MessageHeaderView> {
        match self.mailbox.search.results.deep_view() {
            Some(results) => first_where(results, is_message(reference)),
            None => None,
        }
    }

    /// The header of a message that is listed, found or on display.
    pub fn find_quick_action_header(&self, account_id: &AccountId, message_id: &String) -> (header: Option<MessageHeader>)
        ensures
            header.deep_view() == self.known_header(
                MessageRefView { account_id: account_id.0@, id: message_id@ },
            ),
    {
        if let Some(i) = holds_message(&self.mailbox.messages, account_id, message_id) {
            assert(self.mailbox.messages.deep_view()[i as int] == self.mailbox.messages[i as int].deep_view());
            return Some(self.mailbox.messages[i].clone());
        }
        if let Some(results) = &self.mailbox.search.results {
            if let Some(i) = holds_message(results, account_id, message_id) {
                assert(results.deep_view()[i as int] == results[i as int].deep_view());
                return Some(results[i].clone());
            }
        }
        match self.displayed_message() {
            Some(message) => if message.header.account_id == *account_id && message.header.id == *message_id {
                Some(message.header.clone())
            } else {
                None
            },
            None => None,
        }
    }

    /// Whether the message on display is the given one.
    pub open spec fn displays(self, reference: MessageRefView) -> bool {
        match self.displayed() {
            Some(message) => message.header.reference() == reference,
            None => false,
        }
    }

    /// What triggering an action does: nothing for an action that is not there; a warning
    /// where it cannot run or the message is unknown; otherwise it is scheduled, once the
    /// message that it sends about is there.
    pub open spec fn triggered(
        self,
        after: AviaryApp,
        reference: MessageRefView,
        action_id: i64,
        recipients: Seq<Seq<char>>,
        quoted: QuotedMailView,
    ) -> bool {
        match first_where(self.actions_of(reference.account_id), action_with_id(action_id)) {
            None => after == self,
            Some(action) => {
                let source = self.mailbox.selected_folder_id.deep_view();
                if self.offline_accounts.deep_view().contains(reference.account_id) || !self.action_valid(
                    reference.account_id,
                    action,
                    recipients,
                ) {
                    &&& after.asked(self, seq![told(ToastKind::Warning, "quick-actions-unavailable"@)])
                    &&& after == (AviaryApp { effects: after.effects, ..self })
                } else {
                    match self.known_header(reference) {
                        None => {
                            &&& after.asked(
                                self,
                                seq![told(ToastKind::Warning, "quick-actions-message-unavailable"@)],
                            )
                            &&& after == (AviaryApp { effects: after.effects, ..self })
                        },
                        Some(header) => if action.forward is None && action.reply is None {
                            self.scheduled(after, action, header, source, None)
                        } else if self.displays(reference) {
                            self.scheduled(after, action, header, source, Some((self.displayed()->0, quoted)))
                        } else {
                            self.deferred(after, reference, action, header)
                        },
                    }
                }
            },
        }
    }

    /// An action waits for the message that it sends about.
    pub open spec fn deferred(
        self,
        after: AviaryApp,
        reference: MessageRefView,
        action: QuickActionView,
        header: MessageHeaderView,
    ) -> bool {
        let seq = next_seq(self.quick_actions.seq);
        &&& after.quick_actions.pending.deep_view() == self.quick_actions.pending.deep_view().filter(
            other_request(seq),
        ).push(
            PendingQuickActionView {
                request_id: seq,
                action,
                source_folder_id: self.mailbox.selected_folder_id.deep_view(),
                header,
            },
        )
        &&& after.asked(
            self,
            seq![
                EffectView::LoadQuickActionMessage {
                    request_id: seq,
                    account_id: reference.account_id,
                    id: reference.id,
                },
                told(ToastKind::Info, "quick-actions-loading-message"@),
            ],
        )
        &&& after == (AviaryApp {
            quick_actions: QuickActionState {
                seq,
                pending: after.quick_actions.pending,
                ..self.quick_actions
            },
            effects: after.effects,
            ..self
        })
    }

    /// Lets an action wait for the message that it sends about.
    fn defer_quick_action(&mut self, account_id: AccountId, message_id: String, action: QuickAction, header: MessageHeader)
        ensures
            old(self).deferred(
                *final(self),
                MessageRefView { account_id: account_id.0@, id: message_id@ },
                action.deep_view(),
                header.deep_view(),
            ),
    {
        let ghost start = self.effects.deep_view();
        let source_folder_id = self.mailbox.selected_folder_id.clone();
        let request_id: u64 = self.next_number();
        drop_request(&mut self.quick_actions.pending, request_id);
        let ghost others = self.quick_actions.pending.deep_view();
        let pending = PendingQuickAction { request_id, action, source_folder_id, header };
        let ghost shown = pending.deep_view();
        self.quick_actions.pending.push(pending);
        assert(self.quick_actions.pending.deep_view() =~= others.push(shown));
        self.send(Effect::LoadQuickActionMessage { request_id, account_id, id: message_id });
        self.tell(ToastKind::Info, "quick-actions-loading-message");
        assert(self.effects.deep_view() =~= start + seq![
            EffectView::LoadQuickActionMessage { request_id, account_id: account_id.0@, id: message_id@ },
            told(ToastKind::Info, "quick-actions-loading-message"@),
        ]);
    }

    /// The action with the given id.
    fn find_action(&self, account_id: &AccountId, action_id: i64) -> (action: Option<QuickAction>)
        ensures
            action.deep_view() == first_where(self.actions_of(account_id.0@), action_with_id(action_id)),
    {
        match self.quick_actions_for(account_id) {
            None => {
                proof {
                    lemma_first_index(Seq::<QuickActionView>::empty(), action_with_id(action_id));
                }
                None
            },
            Some(actions) => {
                let found = position_where(
                    actions,
                    |action: &QuickAction| -> (same: bool)
                        ensures
                            same == (action.deep_view().id == action_id)
                        { action.id == action_id },
                    Ghost(action_with_id(action_id)),
                );
                match found {
                    Some(i) => {
                        assert(actions.deep_view()[i as int] == actions[i as int].deep_view());
                        Some(actions[i].clone())
                    },
                    None => None,
                }
            },
        }
    }

    /// Runs an action on a message. `recipients` are the addresses that it forwards to,
    /// and `quoted` is what a reply or forward of the message on display starts with.
    pub fn trigger_quick_action(
        &mut self,
        account_id: AccountId,
        message_id: String,
        action_id: i64,
        recipients: &Vec<String>,
        quoted: QuotedMail,
    )
        ensures
            old(self).triggered(
                *final(self),
                MessageRefView { account_id: account_id.0@, id: message_id@ },
                action_id,
                recipients.deep_view(),
                quoted.deep_view(),
            ),
    {
        let action = match self.find_action(&account_id, action_id) {
            Some(action) => action,
            None => {
                return;
            },
        };
        if holds_account(&self.offline_accounts, &account_id) || !self.quick_action_is_valid(
            &account_id,
            &action,
            recipients,
        ) {
            self.tell(ToastKind::Warning, "quick-actions-unavailable");
            return;
        }
        let header = match self.find_quick_action_header(&account_id, &message_id) {
            Some(header) => header,
            None => {
                self.tell(ToastKind::Warning, "quick-actions-message-unavailable");
                return;
            },
        };
        let source_folder_id = self.mailbox.selected_folder_id.clone();
        if action.forward.is_none() && action.reply.is_none() {
            self.schedule_quick_action(action, header, source_folder_id, None);
            return;
        }
        let shown: Option<Message> = match self.displayed_message() {
            Some(message) => if message.header.account_id == account_id && message.header.id == message_id {
                Some(message.clone())
            } else {
                None
            },
            None => None,
        };
        match shown {
            Some(message) => {
                self.schedule_quick_action(action, header, source_folder_id, Some((message, quoted)));
            },
            None => {
                self.defer_quick_action(account_id, message_id, action, header);
            },
        }
    }

    /// Takes out what waits under a number.
    fn take_request(&mut self, request_id: u64) -> (taken: Option<PendingQuickAction>)
        ensures
            taken.deep_view() == first_where(
                old(self).quick_actions.pending.deep_view(),
                waits_under(request_id),
            ),
            if taken is Some {
                &&& final(self).quick_actions.pending.deep_view() == old(
                    self,
                ).quick_actions.pending.deep_view().filter(other_request(request_id))
                &&& *final(self) == (AviaryApp {
                    quick_actions: QuickActionState {
                        pending: final(self).quick_actions.pending,
                        ..old(self).quick_actions
                    },
                    ..*old(self)
                })
            } else {
                *final(self) == *old(self)
            },
    {
        let found = position_where(
            &self.quick_actions.pending,
            |pending: &PendingQuickAction| -> (same: bool)
                ensures
                    same == (pending.deep_view().request_id == request_id)
                { pending.request_id == request_id },
            Ghost(waits_under(request_id)),
        );
        match found {
            Some(i) => {
                assert(self.quick_actions.pending.deep_view()[i as int]
                    == self.quick_actions.pending[i as int].deep_view());
                let taken = self.quick_actions.pending[i].clone();
                drop_request(&mut self.quick_actions.pending, request_id);
                Some(taken)
            },
            None => None,
        }
    }

    /// The application once nothing waits under a number.
    pub open spec fn request_taken(self, after: AviaryApp, request_id: u64) -> bool {
        &&& after.quick_actions.pending.deep_view() == self.quick_actions.pending.deep_view().filter(
            other_request(request_id),
        )
        &&& after == (AviaryApp {
            quick_actions: QuickActionState { pending: after.quick_actions.pending, ..self.quick_actions },
            ..self
        })
    }

    /// What `on_quick_action_message_loaded` does.
    pub open spec fn quick_action_message_loaded_handled(self, after: AviaryApp, request_id: u64, message: Message, quoted: QuotedMail) -> bool {
        match first_where(self.quick_actions.pending.deep_view(), waits_under(request_id)) {
            None => after == self,
            Some(pending) => exists|taken: AviaryApp|
                self.request_taken(taken, request_id) && #[trigger] taken.scheduled(
                    after,
                    pending.action,
                    pending.header,
                    pending.source_folder_id,
                    Some((message.deep_view(), quoted.deep_view())),
                ),
        }
    }

    /// The message that an action waits for came.
    pub fn on_quick_action_message_loaded(&mut self, request_id: u64, message: Message, quoted: QuotedMail)
        ensures
            old(self).quick_action_message_loaded_handled(*final(self), request_id, message, quoted),
    {
        match self.take_request(request_id) {
            None => {},
            Some(pending) => {
                let ghost taken = *self;
                let ghost shown = pending.deep_view();
                self.schedule_quick_action(
                    pending.action,
                    pending.header,
                    pending.source_folder_id,
                    Some((message, quoted)),
                );
                assert(taken.scheduled(
                    *self,
                    shown.action,
                    shown.header,
                    shown.source_folder_id,
                    Some((message.deep_view(), quoted.deep_view())),
                ));
            },
        }
    }

    /// What `on_quick_action_message_error` does.
    pub open spec fn quick_action_message_error_handled(self, after: AviaryApp, request_id: u64, error: String) -> bool {
        match first_where(self.quick_actions.pending.deep_view(), waits_under(request_id)) {
            None => after == self,
            Some(pending) => {
                &&& after.quick_actions.pending.deep_view() == self.quick_actions.pending.deep_view().filter(other_request(request_id))
                &&& after.asked(
                    self,
                    seq![
                        crate::app::passing(
                            ToastKind::Error,
                            NoticeTextView::NamedFailure {
                                key: "quick-actions-load-failed"@,
                                name: pending.action.name,
                                cause: ShortenedView { whole: error@ },
                            },
                        ),
                    ],
                )
                &&& after == (AviaryApp {
                    quick_actions: QuickActionState {
                        pending: after.quick_actions.pending,
                        ..self.quick_actions
                    },
                    effects: after.effects,
                    ..self
                })
            },
        }
    }

    /// The message that an action waits for could not be had.
    pub fn on_quick_action_message_error(&mut self, request_id: u64, error: String)
        ensures
            old(self).quick_action_message_error_handled(*final(self), request_id, error),
    {
        if let Some(pending) = self.take_request(request_id) {
            self.toast(
                ToastKind::Error,
                NoticeText::NamedFailure {
                    key: "quick-actions-load-failed",
                    name: pending.action.name,
                    cause: Shortened { whole: error },
                },
            );
        }
    }

    /// What `on_quick_action_completed` does.
    pub open spec fn quick_action_completed_handled(self, after: AviaryApp, id: u64, action_name: String) -> bool {
        &&& after.asked(
            self,
            seq![
                EffectView::CompleteQuickAction { execution_id: id },
                execution_told(
                    ToastKind::Success,
                    NoticeTextView::Named { key: "quick-actions-completed"@, name: action_name@ },
                    false,
                    id,
                    Offer::Nothing,
                ),
            ],
        )
        &&& after == (AviaryApp { effects: after.effects, ..self })
    }

    /// An execution ended well.
    pub fn on_quick_action_completed(&mut self, id: u64, action_name: String)
        ensures
            old(self).quick_action_completed_handled(*final(self), id, action_name),
    {
        let ghost start = self.effects.deep_view();
        self.send(Effect::CompleteQuickAction { execution_id: id });
        self.tell_execution(
            ToastKind::Success,
            NoticeText::Named { key: "quick-actions-completed", name: action_name },
            false,
            id,
            Offer::Nothing,
        );
        assert(self.effects.deep_view() =~= start + seq![
            EffectView::CompleteQuickAction { execution_id: id },
            execution_told(
                ToastKind::Success,
                NoticeTextView::Named { key: "quick-actions-completed"@, name: action_name@ },
                false,
                id,
                Offer::Nothing,
            ),
        ]);
    }

    /// What `on_quick_action_started` does.
    pub open spec fn quick_action_started_handled(self, after: AviaryApp, id: u64, action_name: String) -> bool {
        &&& after.asked(
            self,
            seq![
                execution_told(
                    ToastKind::Info,
                    NoticeTextView::Named { key: "quick-actions-started"@, name: action_name@ },
                    false,
                    id,
                    Offer::Nothing,
                ),
            ],
        )
        &&& after == (AviaryApp { effects: after.effects, ..self })
    }

    /// The time to cancel an execution has passed: it is on its way to the provider.
    pub fn on_quick_action_started(&mut self, id: u64, action_name: String)
        ensures
            old(self).quick_action_started_handled(*final(self), id, action_name),
    {
        self.tell_execution(
            ToastKind::Info,
            NoticeText::Named { key: "quick-actions-started", name: action_name },
            false,
            id,
            Offer::Nothing,
        );
    }

    /// What `on_quick_action_cancelled` does.
    pub open spec fn quick_action_cancelled_handled(self, after: AviaryApp, id: u64, action_name: String) -> bool {
        &&& after.asked(
            self,
            seq![
                EffectView::CancelQuickAction { execution_id: id },
                execution_told(
                    ToastKind::Success,
                    NoticeTextView::Named { key: "quick-actions-cancelled"@, name: action_name@ },
                    false,
                    id,
                    Offer::Nothing,
                ),
            ],
        )
        &&& after == (AviaryApp { effects: after.effects, ..self })
    }

    /// An execution was cancelled in time: what it showed is taken back.
    pub fn on_quick_action_cancelled(&mut self, id: u64, action_name: String)
        ensures
            old(self).quick_action_cancelled_handled(*final(self), id, action_name),
    {
        let ghost start = self.effects.deep_view();
        self.send(Effect::CancelQuickAction { execution_id: id });
        self.tell_execution(
            ToastKind::Success,
            NoticeText::Named { key: "quick-actions-cancelled", name: action_name },
            false,
            id,
            Offer::Nothing,
        );
        assert(self.effects.deep_view() =~= start + seq![
            EffectView::CancelQuickAction { execution_id: id },
            execution_told(
                ToastKind::Success,
                NoticeTextView::Named { key: "quick-actions-cancelled"@, name: action_name@ },
                false,
                id,
                Offer::Nothing,
            ),
        ]);
    }

    /// What `on_quick_action_failed` does.
    pub open spec fn quick_action_failed_handled(self, after: AviaryApp, remaining: &QuickActionExecution, completed_steps: usize, error: String) -> bool {
        &&& after.asked(
            self,
            seq![
                EffectView::FailQuickAction { execution_id: remaining.execution_id, completed_steps },
                execution_told(
                    ToastKind::Error,
                    NoticeTextView::NamedFailure {
                        key: "quick-actions-failed"@,
                        name: remaining.action_name@,
                        cause: ShortenedView { whole: error@ },
                    },
                    true,
                    remaining.execution_id,
                    Offer::RetryRemaining,
                ),
            ],
        )
        &&& after == (AviaryApp { effects: after.effects, ..self })
    }

    /// A step failed. The notification offers to run what is left.
    pub fn on_quick_action_failed(&mut self, remaining: &QuickActionExecution, completed_steps: usize, error: String)
        ensures
            old(self).quick_action_failed_handled(*final(self), remaining, completed_steps, error),
    {
        let ghost start = self.effects.deep_view();
        self.send(Effect::FailQuickAction { execution_id: remaining.execution_id, completed_steps });
        self.tell_execution(
            ToastKind::Error,
            NoticeText::NamedFailure {
                key: "quick-actions-failed",
                name: remaining.action_name.clone(),
                cause: Shortened { whole: error },
            },
            true,
            remaining.execution_id,
            Offer::RetryRemaining,
        );
        assert(self.effects.deep_view() =~= start + seq![
            EffectView::FailQuickAction { execution_id: remaining.execution_id, completed_steps },
            execution_told(
                ToastKind::Error,
                NoticeTextView::NamedFailure {
                    key: "quick-actions-failed"@,
                    name: remaining.action_name@,
                    cause: ShortenedView { whole: error@ },
                },
                true,
                remaining.execution_id,
                Offer::RetryRemaining,
            ),
        ]);
    }

    /// What `on_quick_action_send_uncertain` does.
    pub open spec fn quick_action_send_uncertain_handled(self, after: AviaryApp, remaining: &QuickActionExecution) -> bool {
        &&& after.asked(
            self,
            seq![
                execution_told(
                    ToastKind::Warning,
                    NoticeTextView::Named {
                        key: "quick-actions-send-uncertain"@,
                        name: remaining.action_name@,
                    },
                    true,
                    remaining.execution_id,
                    if remaining.steps.len() > 0 {
                        Offer::ContinueTriage
                    } else {
                        Offer::Nothing
                    },
                ),
            ],
        )
        &&& after == (AviaryApp { effects: after.effects, ..self })
    }

    /// It is not known whether a mail of an execution was sent. Nothing is sent again by
    /// itself; what comes after it can be run, if there is anything.
    pub fn on_quick_action_send_uncertain(&mut self, remaining: &QuickActionExecution)
        ensures
            old(self).quick_action_send_uncertain_handled(*final(self), remaining),
    {
        let offer = if remaining.steps.len() > 0 {
            Offer::ContinueTriage
        } else {
            Offer::Nothing
        };
        self.tell_execution(
            ToastKind::Warning,
            NoticeText::Named { key: "quick-actions-send-uncertain", name: remaining.action_name.clone() },
            true,
            remaining.execution_id,
            offer,
        );
    }

    /// What `on_quick_action_message_state` does.
    pub open spec fn quick_action_message_state_handled(self, after: AviaryApp, account_id: AccountId, message_id: String, read: Option<bool>, flagged: Option<bool>) -> bool {
        let reference = MessageRefView { account_id: account_id.0@, id: message_id@ };
        &&& after.mailbox.messages.deep_view() == self.mailbox.messages.deep_view().map_values(
            state_of(reference, read, flagged),
        )
        &&& after.mailbox.search.results.deep_view() == in_results(
            self.mailbox.search.results.deep_view(),
            state_of(reference, read, flagged),
        )
        &&& after.mailbox.viewer.selected.deep_view() == in_selected(
            self.mailbox.viewer.selected.deep_view(),
            message_state(reference, read, flagged),
        )
        &&& after == (AviaryApp {
            mailbox: MailboxState {
                messages: after.mailbox.messages,
                search: SearchState {
                    results: after.mailbox.search.results,
                    ..self.mailbox.search
                },
                viewer: ViewerState {
                    selected: after.mailbox.viewer.selected,
                    ..self.mailbox.viewer
                },
                ..self.mailbox
            },
            ..self
        })
    }

    /// A step changed whether a message is read or flagged.
    pub fn on_quick_action_message_state(
        &mut self,
        account_id: AccountId,
        message_id: String,
        read: Option<bool>,
        flagged: Option<bool>,
    )
        ensures
            old(self).quick_action_message_state_handled(*final(self), account_id, message_id, read, flagged),
    {
        let reference = MessageRef { account_id, id: message_id };
        let ghost shown = reference.deep_view();
        set_states(&mut self.mailbox.messages, &reference, read, flagged);
        if let Some(results) = &mut self.mailbox.search.results {
            set_states(results, &reference, read, flagged);
        }
        map_selected(
            &mut self.mailbox.viewer.selected,
            |message: Message| -> (changed: Message)
                ensures
                    changed.deep_view() == message_state(reference.deep_view(), read, flagged)(message.deep_view())
                {
                let mut message = message;
                if message.header.account_id == reference.account_id && message.header.id == reference.id {
                    message.header = set_state(message.header, read, flagged);
                }
                message
            },
            Ghost(message_state(shown, read, flagged)),
        );
    }

    /// Whether the menu of quick actions is open for a message.
    pub open spec fn menu_open(self, target: MessageRefView, scope: Seq<char>) -> bool {
        self.quick_actions.menu.deep_view() == Some((target, scope))
    }

    /// Whether the menu of quick actions is open for a message, in the given place.
    pub fn quick_action_menu_is_open(&self, target: &MessageRef, scope: &String) -> (open: bool)
        ensures
            open == self.menu_open(target.deep_view(), scope@),
    {
        match &self.quick_actions.menu {
            Some(menu) => menu.0 == *target && menu.1 == *scope,
            None => false,
        }
    }

    /// Opens the menu of quick actions, if there are any.
    pub fn open_quick_action_menu(&mut self, target: MessageRef, scope: String)
        ensures
            if old(self).actions_of(target.account_id.0@).len() == 0 {
                *final(self) == *old(self)
            } else {
                *final(self) == (AviaryApp {
                    quick_actions: QuickActionState { menu: Some((target, scope)), ..old(self).quick_actions },
                    ..*old(self)
                })
            },
    {
        let any = match self.quick_actions_for(&target.account_id) {
            Some(actions) => {
                assert(actions.deep_view().len() == actions.len());
                actions.len() > 0
            },
            None => false,
        };
        if any {
            self.quick_actions.menu = Some((target, scope));
        }
    }

    /// Closes the menu of quick actions, if it is open for a message in the given place.
    pub fn close_quick_action_menu(&mut self, target: &MessageRef, scope: &String)
        ensures
            if old(self).menu_open(target.deep_view(), scope@) {
                *final(self) == (AviaryApp {
                    quick_actions: QuickActionState { menu: None, ..old(self).quick_actions },
                    ..*old(self)
                })
            } else {
                *final(self) == *old(self)
            },
    {
        if self.quick_action_menu_is_open(target, scope) {
            self.quick_actions.menu = None;
        }
    }

    /// The button of an action: it is there to be pressed unless its account is offline or
    /// the action cannot run.
    pub open spec fn button_of(self, account_id: Seq<char>, action: QuickActionView, recipients: Seq<Seq<char>>) -> QuickButton {
        QuickButton {
            action_id: action.id,
            enabled: !self.offline_accounts.deep_view().contains(account_id) && self.action_valid(
                account_id,
                action,
                recipients,
            ),
        }
    }

    /// The buttons of an account's actions, `recipients[i]` being the addresses that the
    /// action at `i` forwards to.
    pub open spec fn buttons(self, account_id: Seq<char>, recipients: Seq<Seq<Seq<char>>>) -> Seq<QuickButton> {
        Seq::new(
            self.actions_of(account_id).len(),
            |i: int| self.button_of(account_id, self.actions_of(account_id)[i], recipients[i]),
        )
    }

    /// The entries of the menu of quick actions.
    pub fn quick_action_menu(&self, account_id: &AccountId, recipients: &Vec<Vec<String>>) -> (entries: Vec<QuickButton>)
        requires
            recipients.len() == self.actions_of(account_id.0@).len(),
        ensures
            entries@ == self.buttons(account_id.0@, recipients.deep_view()),
    {
        let mut entries: Vec<QuickButton> = Vec::new();
        let offline = holds_account(&self.offline_accounts, account_id);
        if let Some(actions) = self.quick_actions_for(account_id) {
            let ghost all = self.actions_of(account_id.0@);
            assert(all.len() == actions.len());
            let mut i: usize = 0;
            while i < actions.len()
                invariant
                    i <= actions.len(),
                    all == actions.deep_view(),
                    all == self.actions_of(account_id.0@),
                    recipients.len() == all.len(),
                    all.len() == actions.len(),
                    offline == self.offline_accounts.deep_view().contains(account_id.0@),
                    entries.len() == i,
                    forall|j: int|
                        0 <= j < i ==> #[trigger] entries[j] == self.button_of(
                            account_id.0@,
                            all[j],
                            recipients.deep_view()[j],
                        ),
                decreases actions.len() - i,
            {
                assert(all[i as int] == actions[i as int].deep_view());
                assert(recipients.deep_view()[i as int] == recipients[i as int].deep_view());
                let valid = self.quick_action_is_valid(account_id, &actions[i], &recipients[i]);
                entries.push(QuickButton { action_id: actions[i].id, enabled: !offline && valid });
                i += 1;
            }
        }
        assert(entries@ =~= self.buttons(account_id.0@, recipients.deep_view()));
        entries
    }

    /// The buttons of the first two favorite actions, among those of all actions.
    pub open spec fn favorites(actions: Seq<QuickActionView>, buttons: Seq<QuickButton>) -> Seq<QuickButton>
        decreases actions.len(),
    {
        if actions.len() == 0 || buttons.len() != actions.len() {
            Seq::empty()
        } else {
            let front = Self::favorites(actions.drop_last(), buttons.drop_last());
            if actions.last().favorite && front.len() < 2 {
                front.push(buttons.last())
            } else {
                front
            }
        }
    }

    /// The buttons that a message shows: those of the first two favorite actions.
    pub fn quick_action_controls(&self, account_id: &AccountId, recipients: &Vec<Vec<String>>) -> (buttons: Vec<QuickButton>)
        requires
            recipients.len() == self.actions_of(account_id.0@).len(),
        ensures
            buttons@ == Self::favorites(
                self.actions_of(account_id.0@),
                self.buttons(account_id.0@, recipients.deep_view()),
            ),
            buttons.len() <= 2,
    {
        let entries = self.quick_action_menu(account_id, recipients);
        let ghost shown = entries@;
        let mut buttons: Vec<QuickButton> = Vec::new();
        if let Some(actions) = self.quick_actions_for(account_id) {
            let ghost all = actions.deep_view();
            assert(all.len() == actions.len());
            let mut i: usize = 0;
            while i < actions.len()
                invariant
                    i <= actions.len(),
                    all == actions.deep_view(),
                    all.len() == actions.len(),
                    entries@ == shown,
                    shown.len() == all.len(),
                    buttons@ == Self::favorites(all.take(i as int), shown.take(i as int)),
                    buttons.len() <= 2,
                decreases actions.len() - i,
            {
                assert(all[i as int] == actions[i as int].deep_view());
                assert(all.take(i + 1).drop_last() =~= all.take(i as int));
                assert(shown.take(i + 1).drop_last() =~= shown.take(i as int));
                if actions[i].favorite && buttons.len() < 2 {
                    buttons.push(entries[i]);
                }
                i += 1;
            }
            assert(all.take(all.len() as int) =~= all);
            assert(shown.take(shown.len() as int) =~= shown);
        }
        buttons
    }
}

/// A header in a new state.
fn set_state(header: MessageHeader, read: Option<bool>, flagged: Option<bool>) -> (changed: MessageHeader)
    ensures
        changed.deep_view() == with_state(header.deep_view(), read, flagged),
{
    let mut header = header;
    if let Some(read) = read {
        header.is_read = read;
    }
    if let Some(flagged) = flagged {
        header.is_flagged = flagged;
    }
    header
}

/// Gives the headers of a message a new state.
fn set_states(headers: &mut Vec<MessageHeader>, reference: &MessageRef, read: Option<bool>, flagged: Option<bool>)
    ensures
        final(headers).deep_view() == old(headers).deep_view().map_values(
            state_of(reference.deep_view(), read, flagged),
        ),
{
    let taken = take_list(headers);
    *headers = map_each(
        taken,
        |header: MessageHeader| -> (changed: MessageHeader)
            ensures
                changed.deep_view() == state_of(reference.deep_view(), read, flagged)(header.deep_view())
            {
            if header.account_id == reference.account_id && header.id == reference.id {
                set_state(header, read, flagged)
            } else {
                header
            }
        },
        Ghost(state_of(reference.deep_view(), read, flagged)),
    );
}

/// An action does only what differs from the state of the message: a message that is already
/// as the action would make it is left alone, and every step changes something.
pub proof fn law_actions_do_only_what_differs(
    app: AviaryApp,
    action: QuickActionView,
    header: MessageHeaderView,
    source: Option<Seq<char>>,
)
    ensures
        (forall|i: int| 0 <= i < action.remove_tags.len() ==> !app.carries(header, #[trigger] action.remove_tags[i])) && (
        forall|i: int| 0 <= i < action.add_tags.len() ==> app.carries(header, #[trigger] action.add_tags[i])) && (
        action.mark_read is None || action.mark_read == Some(header.is_read)) && (action.set_flagged is None
            || action.set_flagged == Some(header.is_flagged)) && (action.move_to_folder_id is None
            || action.move_to_folder_id == source) ==> app.steps_of(action, header, source, None)
            == Seq::<QuickActionStepView>::empty(),
        forall|i: int|
            0 <= i < app.steps_of(action, header, source, None).len() ==> match #[trigger] app.steps_of(
                action,
                header,
                source,
                None,
            )[i] {
                QuickActionStepView::RemoveTag { tag_id } => app.carries(header, tag_id),
                QuickActionStepView::AddTag { tag_id } => !app.carries(header, tag_id),
                QuickActionStepView::MarkRead { read } => read != header.is_read,
                QuickActionStepView::SetFlag { flagged } => flagged != header.is_flagged,
                QuickActionStepView::Move { source_folder_id, target_folder_id } => source_folder_id == source
                    && source != Some(target_folder_id),
                _ => false,
            },
{
    let off = tag_steps(action.remove_tags, app.carried(header), false);
    let on = tag_steps(action.add_tags, app.not_carried(header), true);
    lemma_filter_accepts(action.remove_tags, app.carried(header));
    lemma_filter_accepts(action.add_tags, app.not_carried(header));
    lemma_filter_holds(action.remove_tags, app.carried(header));
    lemma_filter_holds(action.add_tags, app.not_carried(header));
    let taken = action.remove_tags.filter(app.carried(header));
    let put = action.add_tags.filter(app.not_carried(header));
    if forall|i: int| 0 <= i < action.remove_tags.len() ==> !app.carries(header, #[trigger] action.remove_tags[i]) {
        if taken.len() > 0 {
            assert(app.carried(header)(taken[0]));
            assert(action.remove_tags.contains(taken[0]));
        }
    }
    if forall|i: int| 0 <= i < action.add_tags.len() ==> app.carries(header, #[trigger] action.add_tags[i]) {
        if put.len() > 0 {
            assert(app.not_carried(header)(put[0]));
            assert(action.add_tags.contains(put[0]));
        }
    }
    let steps = app.steps_of(action, header, source, None);
    let marks = AviaryApp::mark_steps(action, header);
    let moves = AviaryApp::move_steps(action, source);
    assert(steps =~= off + on + marks + moves);
    assert forall|i: int| 0 <= i < steps.len() implies match #[trigger] steps[i] {
        QuickActionStepView::RemoveTag { tag_id } => app.carries(header, tag_id),
        QuickActionStepView::AddTag { tag_id } => !app.carries(header, tag_id),
        QuickActionStepView::MarkRead { read } => read != header.is_read,
        QuickActionStepView::SetFlag { flagged } => flagged != header.is_flagged,
        QuickActionStepView::Move { source_folder_id, target_folder_id } => source_folder_id == source && source
            != Some(target_folder_id),
        _ => false,
    } by {
        if i < off.len() {
            assert(steps[i] == off[i]);
            assert(app.carried(header)(taken[i]));
        } else if i < off.len() + on.len() {
            assert(steps[i] == on[i - off.len()]);
            assert(app.not_carried(header)(put[i - off.len()]));
        } else if i < off.len() + on.len() + marks.len() {
            assert(steps[i] == marks[i - off.len() - on.len()]);
        } else {
            assert(steps[i] == moves[i - off.len() - on.len() - marks.len()]);
        }
    }
}

} // verus!
