//! The menu of a message row, and the move menu that it shares with the toolbar.
use crate::app::holds_account;
use crate::folder_tree::{Label, LabelView};
use crate::list_pane::{collect_marks, marks_of};
use crate::model::{clone_list, MessageHeader, MessageHeaderView, MessageRef, MessageRefView};
use crate::move_targets::{has_move_folder_targets, not_selected, MoveFolderTarget};
use crate::selection::state_of_header;
use crate::settings::{deadline, is_blocked};
use crate::state::{AviaryApp, Effect, EffectView, Filing, PendingState};
use vstd::prelude::*;

verus! {

/// What a move applies to.
#[derive(Debug, PartialEq, Eq)]
pub enum MoveScope {
    Message { reference: MessageRef },
    Selection { references: Vec<MessageRef> },
}

/// Mathematical form of [`MoveScope`].
#[verifier::ext_equal]
pub enum MoveScopeView {
    Message { reference: MessageRefView },
    Selection { references: Seq<MessageRefView> },
}

impl DeepView for MoveScope {
    type V = MoveScopeView;

    open spec fn deep_view(&self) -> MoveScopeView {
        match self {
            MoveScope::Message { reference } => MoveScopeView::Message { reference: reference.deep_view() },
            MoveScope::Selection { references } => MoveScopeView::Selection { references: references.deep_view() },
        }
    }
}

/// Entries of the menu of a message.
#[derive(Debug, Clone, Copy, PartialEq, Eq, Structural)]
pub enum MenuCommand {
    Open,
    QuickActions,
    Tags,
    ReplyAll,
    Forward,
    Pin,
    Unpin,
    MarkRead,
    MarkUnread,
    Snooze,
    Unsnooze,
    Move,
    Archive,
    Junk,
    NotJunk,
    Block,
    Unblock,
    Delete,
}

impl DeepView for MenuCommand {
    type V = MenuCommand;

    open spec fn deep_view(&self) -> MenuCommand {
        *self
    }
}

/// A line of the menu of a message. The count goes into the label of what acts on a conversation.
#[derive(Debug, PartialEq, Eq)]
pub enum MenuLine {
    Rule,
    Item { command: MenuCommand, label: &'static str, count: Option<usize>, enabled: bool },
}

/// Mathematical form of [`MenuLine`].
#[verifier::ext_equal]
pub enum MenuLineView {
    Rule,
    Item { command: MenuCommand, label: Seq<char>, count: Option<usize>, enabled: bool },
}

impl DeepView for MenuLine {
    type V = MenuLineView;

    open spec fn deep_view(&self) -> MenuLineView {
        match self {
            MenuLine::Rule => MenuLineView::Rule,
            MenuLine::Item { command, label, count, enabled } => MenuLineView::Item { command: *command, label: label.deep_view(), count: *count, enabled: *enabled },
        }
    }
}

/// A line of the move menu. A submenu goes on to its end.
#[derive(Debug, PartialEq, Eq)]
pub enum MoveLine {
    /// Moves to a folder without others below it.
    Leaf { label: Label, target: String },
    Submenu { label: Label },
    /// Moves to the folder that the submenu stands for.
    Here { target: String },
    Rule,
    End,
}

/// Mathematical form of [`MoveLine`].
#[verifier::ext_equal]
pub enum MoveLineView {
    Leaf { label: LabelView, target: Seq<char> },
    Submenu { label: LabelView },
    Here { target: Seq<char> },
    Rule,
    End,
}

impl DeepView for MoveLine {
    type V = MoveLineView;

    open spec fn deep_view(&self) -> MoveLineView {
        match self {
            MoveLine::Leaf { label, target } => MoveLineView::Leaf { label: label.deep_view(), target: target.deep_view() },
            MoveLine::Submenu { label } => MoveLineView::Submenu { label: label.deep_view() },
            MoveLine::Here { target } => MoveLineView::Here { target: target.deep_view() },
            MoveLine::Rule => MoveLineView::Rule,
            MoveLine::End => MoveLineView::End,
        }
    }
}

/// Label of an entry: of the message, or of the conversation.
pub open spec fn command_label(command: MenuCommand, thread: bool) -> Seq<char> {
    match command {
        MenuCommand::Open => "ctx-open"@,
        MenuCommand::QuickActions => "quick-actions-menu"@,
        MenuCommand::Tags => "tags-edit"@,
        MenuCommand::ReplyAll => "viewer-reply-all"@,
        MenuCommand::Forward => "viewer-forward"@,
        MenuCommand::Pin => if thread {
            "ctx-pin-thread"@
        } else {
            "messages-pin"@
        },
        MenuCommand::Unpin => if thread {
            "ctx-unpin-thread"@
        } else {
            "messages-unpin"@
        },
        MenuCommand::MarkRead => if thread {
            "ctx-mark-thread-read"@
        } else {
            "ctx-mark-read"@
        },
        MenuCommand::MarkUnread => if thread {
            "ctx-mark-thread-unread"@
        } else {
            "ctx-mark-unread"@
        },
        MenuCommand::Snooze => if thread {
            "snooze-thread-menu"@
        } else {
            "snooze-menu"@
        },
        MenuCommand::Unsnooze => "snooze-cancel"@,
        MenuCommand::Move => if thread {
            "ctx-move-thread-to"@
        } else {
            "ctx-move-to"@
        },
        MenuCommand::Archive => if thread {
            "ctx-archive-thread"@
        } else {
            "ctx-archive"@
        },
        MenuCommand::Junk => if thread {
            "ctx-junk-thread"@
        } else {
            "ctx-junk"@
        },
        MenuCommand::NotJunk => if thread {
            "ctx-not-junk-thread"@
        } else {
            "ctx-not-junk"@
        },
        MenuCommand::Block => "ctx-block-sender"@,
        MenuCommand::Unblock => "ctx-unblock-sender"@,
        MenuCommand::Delete => if thread {
            "ctx-delete-thread"@
        } else {
            "delete"@
        },
    }
}

/// Label of an entry.
pub fn label_of_command(command: MenuCommand, thread: bool) -> (label: &'static str)
    ensures
        label@ == command_label(command, thread),
{
    match command {
        MenuCommand::Open => "ctx-open",
        MenuCommand::QuickActions => "quick-actions-menu",
        MenuCommand::Tags => "tags-edit",
        MenuCommand::ReplyAll => "viewer-reply-all",
        MenuCommand::Forward => "viewer-forward",
        MenuCommand::Pin => if thread {
            "ctx-pin-thread"
        } else {
            "messages-pin"
        },
        MenuCommand::Unpin => if thread {
            "ctx-unpin-thread"
        } else {
            "messages-unpin"
        },
        MenuCommand::MarkRead => if thread {
            "ctx-mark-thread-read"
        } else {
            "ctx-mark-read"
        },
        MenuCommand::MarkUnread => if thread {
            "ctx-mark-thread-unread"
        } else {
            "ctx-mark-unread"
        },
        MenuCommand::Snooze => if thread {
            "snooze-thread-menu"
        } else {
            "snooze-menu"
        },
        MenuCommand::Unsnooze => "snooze-cancel",
        MenuCommand::Move => if thread {
            "ctx-move-thread-to"
        } else {
            "ctx-move-to"
        },
        MenuCommand::Archive => if thread {
            "ctx-archive-thread"
        } else {
            "ctx-archive"
        },
        MenuCommand::Junk => if thread {
            "ctx-junk-thread"
        } else {
            "ctx-junk"
        },
        MenuCommand::NotJunk => if thread {
            "ctx-not-junk-thread"
        } else {
            "ctx-not-junk"
        },
        MenuCommand::Block => "ctx-block-sender",
        MenuCommand::Unblock => "ctx-unblock-sender",
        MenuCommand::Delete => if thread {
            "ctx-delete-thread"
        } else {
            "delete"
        },
    }
}

/// Whether the label of an entry says how many messages it acts on.
pub open spec fn says_count(command: MenuCommand) -> bool {
    match command {
        MenuCommand::MarkRead
        | MenuCommand::MarkUnread
        | MenuCommand::Snooze
        | MenuCommand::Move
        | MenuCommand::Archive
        | MenuCommand::Junk
        | MenuCommand::NotJunk
        | MenuCommand::Delete => true,
        _ => false,
    }
}

/// An entry of the menu. `count` is the size of the conversation it acts on, if it acts on
/// one.
pub open spec fn entry(command: MenuCommand, count: Option<usize>, enabled: bool) -> MenuLineView {
    MenuLineView::Item {
        command,
        label: command_label(command, count is Some),
        count: if says_count(command) {
            count
        } else {
            None
        },
        enabled,
    }
}

fn make_entry(command: MenuCommand, count: Option<usize>, enabled: bool) -> (line: MenuLine)
    ensures
        line.deep_view() == entry(command, count, enabled),
{
    let said: Option<usize> = match command {
        MenuCommand::MarkRead
        | MenuCommand::MarkUnread
        | MenuCommand::Snooze
        | MenuCommand::Move
        | MenuCommand::Archive
        | MenuCommand::Junk
        | MenuCommand::NotJunk
        | MenuCommand::Delete => count,
        _ => None,
    };
    MenuLine::Item { command, label: label_of_command(command, count.is_some()), count: said, enabled }
}

/// What the menu of a message goes by.
#[derive(Debug, Clone, Copy, PartialEq, Eq, Structural)]
pub struct MenuFacts {
    /// Size of the conversation that the menu acts on.
    pub count: Option<usize>,
    pub offline: bool,
    pub has_quick_actions: bool,
    pub is_pinned: bool,
    pub is_read: bool,
    pub snoozed: bool,
    pub can_move: bool,
    pub has_junk: bool,
    pub in_junk: bool,
    pub sender_blocked: bool,
}

impl MenuFacts {
    /// The entries that act on the message itself.
    pub open spec fn upper(self) -> Seq<MenuLineView> {
        seq![entry(MenuCommand::Open, None, true), MenuLineView::Rule] + (if self.has_quick_actions {
            seq![entry(MenuCommand::QuickActions, None, true), MenuLineView::Rule]
        } else {
            Seq::empty()
        }) + seq![
            entry(MenuCommand::Tags, None, true),
            MenuLineView::Rule,
            entry(MenuCommand::ReplyAll, None, true),
            entry(MenuCommand::Forward, None, true),
        ]
    }

    /// The entries that act on the conversation of a folded row.
    pub open spec fn middle(self) -> Seq<MenuLineView> {
        seq![
            entry(
                if self.is_pinned {
                    MenuCommand::Unpin
                } else {
                    MenuCommand::Pin
                },
                self.count,
                true,
            ),
            entry(
                if self.is_read {
                    MenuCommand::MarkUnread
                } else {
                    MenuCommand::MarkRead
                },
                self.count,
                !self.offline,
            ),
            MenuLineView::Rule,
            entry(
                if self.snoozed {
                    MenuCommand::Unsnooze
                } else {
                    MenuCommand::Snooze
                },
                self.count,
                true,
            ),
        ] + (if self.can_move {
            seq![MenuLineView::Rule, entry(MenuCommand::Move, self.count, true)]
        } else {
            Seq::empty()
        })
    }

    /// The entries that put messages away. The sender that is blocked is always the one of
    /// the message itself.
    pub open spec fn lower(self) -> Seq<MenuLineView> {
        seq![MenuLineView::Rule, entry(MenuCommand::Archive, self.count, !self.offline)] + (if self.has_junk {
            seq![
                entry(
                    if self.in_junk {
                        MenuCommand::NotJunk
                    } else {
                        MenuCommand::Junk
                    },
                    self.count,
                    !self.offline,
                ),
                entry(
                    if self.sender_blocked {
                        MenuCommand::Unblock
                    } else {
                        MenuCommand::Block
                    },
                    None,
                    !self.offline,
                ),
            ]
        } else {
            Seq::empty()
        }) + seq![entry(MenuCommand::Delete, self.count, !self.offline)]
    }

    /// The lines of the menu.
    pub open spec fn lines(self) -> Seq<MenuLineView> {
        self.upper() + self.middle() + self.lower()
    }

    fn push_upper(self, menu: &mut Vec<MenuLine>)
        ensures
            final(menu).deep_view() == old(menu).deep_view() + self.upper(),
    {
        let ghost start = menu.deep_view();
        menu.push(make_entry(MenuCommand::Open, None, true));
        menu.push(MenuLine::Rule);
        if self.has_quick_actions {
            menu.push(make_entry(MenuCommand::QuickActions, None, true));
            menu.push(MenuLine::Rule);
        }
        menu.push(make_entry(MenuCommand::Tags, None, true));
        menu.push(MenuLine::Rule);
        menu.push(make_entry(MenuCommand::ReplyAll, None, true));
        menu.push(make_entry(MenuCommand::Forward, None, true));
        assert(menu.deep_view() =~= start + self.upper());
    }

    fn push_middle(self, menu: &mut Vec<MenuLine>)
        ensures
            final(menu).deep_view() == old(menu).deep_view() + self.middle(),
    {
        let ghost start = menu.deep_view();
        let pin = if self.is_pinned {
            MenuCommand::Unpin
        } else {
            MenuCommand::Pin
        };
        let read = if self.is_read {
            MenuCommand::MarkUnread
        } else {
            MenuCommand::MarkRead
        };
        let snooze = if self.snoozed {
            MenuCommand::Unsnooze
        } else {
            MenuCommand::Snooze
        };
        menu.push(make_entry(pin, self.count, true));
        menu.push(make_entry(read, self.count, !self.offline));
        menu.push(MenuLine::Rule);
        menu.push(make_entry(snooze, self.count, true));
        if self.can_move {
            menu.push(MenuLine::Rule);
            menu.push(make_entry(MenuCommand::Move, self.count, true));
        }
        assert(menu.deep_view() =~= start + self.middle());
    }

    fn push_lower(self, menu: &mut Vec<MenuLine>)
        ensures
            final(menu).deep_view() == old(menu).deep_view() + self.lower(),
    {
        let ghost start = menu.deep_view();
        menu.push(MenuLine::Rule);
        menu.push(make_entry(MenuCommand::Archive, self.count, !self.offline));
        if self.has_junk {
            let junk = if self.in_junk {
                MenuCommand::NotJunk
            } else {
                MenuCommand::Junk
            };
            let block = if self.sender_blocked {
                MenuCommand::Unblock
            } else {
                MenuCommand::Block
            };
            menu.push(make_entry(junk, self.count, !self.offline));
            menu.push(make_entry(block, None, !self.offline));
        }
        menu.push(make_entry(MenuCommand::Delete, self.count, !self.offline));
        assert(menu.deep_view() =~= start + self.lower());
    }

    /// The lines of the menu.
    pub fn menu(self) -> (menu: Vec<MenuLine>)
        ensures
            menu.deep_view() == self.lines(),
    {
        let mut menu: Vec<MenuLine> = Vec::new();
        self.push_upper(&mut menu);
        self.push_middle(&mut menu);
        self.push_lower(&mut menu);
        assert(menu.deep_view() =~= self.lines());
        menu
    }
}

/// The lines of a target: a folder with others below it becomes a submenu whose first
/// entry moves to the folder itself.
pub open spec fn move_menu_of(target: MoveFolderTarget) -> Seq<MoveLineView>
    decreases target,
{
    if target.children@.len() == 0 {
        seq![MoveLineView::Leaf { label: target.label.deep_view(), target: target.id@ }]
    } else {
        seq![
            MoveLineView::Submenu { label: target.label.deep_view() },
            MoveLineView::Here { target: target.id@ },
            MoveLineView::Rule,
        ] + move_menu(target.children@) + seq![MoveLineView::End]
    }
}

/// The lines of several targets.
pub open spec fn move_menu(targets: Seq<MoveFolderTarget>) -> Seq<MoveLineView>
    decreases targets,
{
    if targets.len() == 0 {
        Seq::empty()
    } else {
        move_menu(targets.drop_last()) + move_menu_of(targets.last())
    }
}

fn push_move_lines(menu: &mut Vec<MoveLine>, target: &MoveFolderTarget)
    ensures
        final(menu).deep_view() == old(menu).deep_view() + move_menu_of(*target),
    decreases target,
{
    let ghost start = menu.deep_view();
    if target.children.len() == 0 {
        menu.push(MoveLine::Leaf { label: target.label.copy(), target: target.id.clone() });
        assert(menu.deep_view() =~= start + move_menu_of(*target));
        return;
    }
    menu.push(MoveLine::Submenu { label: target.label.copy() });
    menu.push(MoveLine::Here { target: target.id.clone() });
    menu.push(MoveLine::Rule);
    let ghost head = menu.deep_view();
    assert(head =~= start + seq![
        MoveLineView::Submenu { label: target.label.deep_view() },
        MoveLineView::Here { target: target.id@ },
        MoveLineView::Rule,
    ]);
    let mut i: usize = 0;
    assert(menu.deep_view() =~= head + move_menu(target.children@.take(0)));
    while i < target.children.len()
        invariant
            i <= target.children.len(),
            menu.deep_view() == head + move_menu(target.children@.take(i as int)),
        decreases target.children.len() - i,
    {
        let ghost before = menu.deep_view();
        proof {
            assert(target.children@.take(i + 1).drop_last() =~= target.children@.take(i as int));
            assert(decreases_to!(target => target.children@[i as int]));
        }
        push_move_lines(menu, &target.children[i]);
        assert(menu.deep_view() =~= head + move_menu(target.children@.take(i + 1)));
        i += 1;
    }
    assert(target.children@.take(target.children@.len() as int) =~= target.children@);
    let ghost body = menu.deep_view();
    menu.push(MoveLine::End);
    assert(menu.deep_view() =~= body + seq![MoveLineView::End]);
    assert(move_menu_of(*target) =~= seq![
        MoveLineView::Submenu { label: target.label.deep_view() },
        MoveLineView::Here { target: target.id@ },
        MoveLineView::Rule,
    ] + move_menu(target.children@) + seq![MoveLineView::End]);
    assert(menu.deep_view() =~= start + move_menu_of(*target));
}

/// The lines of the move menu.
pub fn add_targets(targets: &Vec<MoveFolderTarget>) -> (menu: Vec<MoveLine>)
    ensures
        menu.deep_view() == move_menu(targets@),
{
    let mut menu: Vec<MoveLine> = Vec::new();
    let mut i: usize = 0;
    assert(menu.deep_view() =~= move_menu(targets@.take(0)));
    while i < targets.len()
        invariant
            i <= targets.len(),
            menu.deep_view() == move_menu(targets@.take(i as int)),
        decreases targets.len() - i,
    {
        assert(targets@.take(i + 1).drop_last() =~= targets@.take(i as int));
        push_move_lines(&mut menu, &targets[i]);
        i += 1;
    }
    assert(targets@.take(targets@.len() as int) =~= targets@);
    menu
}

/// The messages that a menu acts on: a conversation counts only where it has several.
pub open spec fn thread_of(members: Seq<MessageRefView>) -> Seq<MessageRefView> {
    if members.len() > 1 {
        members
    } else {
        Seq::empty()
    }
}

/// What an entry asks for.
pub open spec fn filing(reference: MessageRefView, thread: Seq<MessageRefView>, place: Filing) -> EffectView {
    if thread.len() > 0 {
        EffectView::FileAll { references: thread, place }
    } else {
        EffectView::File { reference, place }
    }
}

impl AviaryApp {
    /// What the menu of a message goes by. `members` are the loaded messages of the
    /// conversation that a folded row stands for.
    pub open spec fn menu_facts(
        self,
        header: MessageHeaderView,
        is_read: bool,
        is_pinned: bool,
        members: Seq<MessageRefView>,
    ) -> MenuFacts {
        let account_id = header.account_id;
        MenuFacts {
            count: if members.len() > 1 {
                Some(members.len() as usize)
            } else {
                None
            },
            offline: self.offline_accounts.deep_view().contains(account_id),
            has_quick_actions: self.actions_of(account_id).len() > 0,
            is_pinned,
            is_read,
            snoozed: deadline(self.settings.account_view(account_id).snoozed_messages, header.id) is Some,
            can_move: self.mailbox.folders_by_account@.contains_key(account_id)
                && self.mailbox.folders_by_account@[account_id].deep_view().any(
                not_selected(self.mailbox.selected_folder_id.deep_view()),
            ),
            has_junk: self.has_junk(account_id),
            in_junk: self.shows_junk(account_id),
            sender_blocked: is_blocked(self.settings.global.blocked_senders.deep_view(), header.from),
        }
    }

    /// The menu of a message.
    pub fn message_row_menu(&self, header: &MessageHeader, is_read: bool, is_pinned: bool, members: &Vec<MessageRef>) -> (menu:
        Vec<MenuLine>)
        ensures
            menu.deep_view() == self.menu_facts(header.deep_view(), is_read, is_pinned, members.deep_view()).lines(),
    {
        let account_id = &header.account_id;
        let has_quick_actions = match self.quick_actions_for(account_id) {
            Some(actions) => actions.len() > 0,
            None => false,
        };
        let can_move = match self.mailbox.folders_by_account.get(account_id) {
            Some(folders) => has_move_folder_targets(folders, self.mailbox.selected_folder_id.as_ref()),
            None => false,
        };
        let snoozed = self.settings.snoozed_until(account_id, header.id.as_str()).is_some();
        let facts = MenuFacts {
            count: if members.len() > 1 {
                Some(members.len())
            } else {
                None
            },
            offline: holds_account(&self.offline_accounts, account_id),
            has_quick_actions,
            is_pinned,
            is_read,
            snoozed,
            can_move,
            has_junk: self.junk_folder_available(account_id),
            in_junk: self.viewing_junk_folder(account_id),
            sender_blocked: self.settings.global.sender_is_blocked(header.from.as_str()),
        };
        assert(members.deep_view().len() == members.len());
        assert(facts == self.menu_facts(header.deep_view(), is_read, is_pinned, members.deep_view()));
        facts.menu()
    }

    /// What an entry of the menu asks for; entries that open a menu of their own ask for
    /// nothing.
    pub open spec fn command_asks(
        self,
        command: MenuCommand,
        header: MessageHeaderView,
        members: Seq<MessageRefView>,
    ) -> Seq<EffectView> {
        let reference = header.reference();
        let thread = thread_of(members);
        match command {
            MenuCommand::Open | MenuCommand::ReplyAll | MenuCommand::Forward => seq![
                EffectView::OpenMessage { account_id: header.account_id, id: header.id },
            ],
            MenuCommand::Pin => seq![Self::pin_ask(reference, thread, true)],
            MenuCommand::Unpin => seq![Self::pin_ask(reference, thread, false)],
            MenuCommand::MarkRead => seq![self.read_ask(reference, thread, true)],
            MenuCommand::MarkUnread => seq![self.read_ask(reference, thread, false)],
            MenuCommand::Unsnooze => seq![EffectView::Unsnooze { reference }],
            MenuCommand::Archive => seq![filing(reference, thread, Filing::Archive)],
            MenuCommand::Junk => seq![filing(reference, thread, Filing::Junk)],
            MenuCommand::NotJunk => seq![filing(reference, thread, Filing::Inbox)],
            MenuCommand::Delete => seq![filing(reference, thread, Filing::Bin)],
            MenuCommand::Block | MenuCommand::Unblock => seq![EffectView::ToggleSenderBlock { sender: header.from }],
            MenuCommand::QuickActions | MenuCommand::Tags | MenuCommand::Snooze | MenuCommand::Move => Seq::empty(),
        }
    }

    /// What marks a message, or each of a conversation with the state it had.
    pub open spec fn read_ask(self, reference: MessageRefView, thread: Seq<MessageRefView>, read: bool) -> EffectView {
        if thread.len() > 0 {
            EffectView::SetReadStates {
                marks: marks_of(
                    self.filtered().filter(Self::one_of(thread)).map_values(
                        |header: MessageHeaderView| state_of_header(header),
                    ),
                    false,
                ),
                read,
            }
        } else {
            EffectView::SetReadState { reference, read, before: !read }
        }
    }

    fn mark_from_menu(&mut self, reference: MessageRef, thread: &Vec<MessageRef>, read: bool)
        ensures
            final(self).asked(*old(self), seq![old(self).read_ask(reference.deep_view(), thread.deep_view(), read)]),
            *final(self) == (AviaryApp { effects: final(self).effects, ..*old(self) }),
    {
        assert(thread.deep_view().len() == thread.len());
        if thread.len() > 0 {
            let states = self.message_states_where(thread);
            self.send(Effect::SetReadStates { marks: collect_marks(&states, false), read });
        } else {
            self.send(Effect::SetReadState { reference, read, before: !read });
        }
    }

    fn pin_from_menu(&mut self, reference: MessageRef, thread: Vec<MessageRef>, pinned: bool)
        ensures
            final(self).asked(*old(self), seq![Self::pin_ask(reference.deep_view(), thread.deep_view(), pinned)]),
            *final(self) == (AviaryApp { effects: final(self).effects, ..*old(self) }),
    {
        assert(thread.deep_view().len() == thread.len());
        if thread.len() > 0 {
            self.send(Effect::PinAll { references: thread, pinned });
        } else {
            self.send(Effect::SetPinned { account_id: reference.account_id, id: reference.id, pinned });
        }
    }

    fn file_from_menu(&mut self, reference: MessageRef, thread: Vec<MessageRef>, place: Filing)
        ensures
            final(self).asked(*old(self), seq![filing(reference.deep_view(), thread.deep_view(), place)]),
            *final(self) == (AviaryApp { effects: final(self).effects, ..*old(self) }),
    {
        assert(thread.deep_view().len() == thread.len());
        if thread.len() > 0 {
            self.send(Effect::FileAll { references: thread, place });
        } else {
            self.send(Effect::File { reference, place });
        }
    }

    /// Runs an entry of the menu. To reply or forward, the message is opened first.
    pub fn run_menu_command(&mut self, command: MenuCommand, header: &MessageHeader, members: &Vec<MessageRef>)
        ensures
            final(self).asked(
                *old(self),
                old(self).command_asks(command, header.deep_view(), members.deep_view()),
            ),
            final(self).pending.reply_id.deep_view() == (match command {
                MenuCommand::ReplyAll => Some(header.id@),
                MenuCommand::Forward => None,
                _ => old(self).pending.reply_id.deep_view(),
            }),
            final(self).pending.forward_id.deep_view() == (match command {
                MenuCommand::ReplyAll => None,
                MenuCommand::Forward => Some(header.id@),
                _ => old(self).pending.forward_id.deep_view(),
            }),
            *final(self) == (AviaryApp {
                pending: PendingState {
                    reply_id: final(self).pending.reply_id,
                    forward_id: final(self).pending.forward_id,
                    ..old(self).pending
                },
                effects: final(self).effects,
                ..*old(self)
            }),
    {
        assert(self.effects.deep_view() =~= old(self).effects.deep_view() + Seq::<EffectView>::empty());
        let reference = header.reference();
        let thread: Vec<MessageRef> = if members.len() > 1 {
            clone_list(members)
        } else {
            Vec::new()
        };
        assert(members.deep_view().len() == members.len());
        assert(thread.deep_view() =~= thread_of(members.deep_view()));
        match command {
            MenuCommand::Open => {
                self.send(Effect::OpenMessage { account_id: reference.account_id, id: reference.id });
            },
            MenuCommand::ReplyAll => {
                self.pending.forward_id = None;
                self.pending.reply_id = Some(header.id.clone());
                self.send(Effect::OpenMessage { account_id: reference.account_id, id: reference.id });
            },
            MenuCommand::Forward => {
                self.pending.reply_id = None;
                self.pending.forward_id = Some(header.id.clone());
                self.send(Effect::OpenMessage { account_id: reference.account_id, id: reference.id });
            },
            MenuCommand::Pin => self.pin_from_menu(reference, thread, true),
            MenuCommand::Unpin => self.pin_from_menu(reference, thread, false),
            MenuCommand::MarkRead => self.mark_from_menu(reference, &thread, true),
            MenuCommand::MarkUnread => self.mark_from_menu(reference, &thread, false),
            MenuCommand::Unsnooze => {
                self.send(Effect::Unsnooze { reference });
            },
            MenuCommand::Archive => self.file_from_menu(reference, thread, Filing::Archive),
            MenuCommand::Junk => self.file_from_menu(reference, thread, Filing::Junk),
            MenuCommand::NotJunk => self.file_from_menu(reference, thread, Filing::Inbox),
            MenuCommand::Delete => self.file_from_menu(reference, thread, Filing::Bin),
            MenuCommand::Block | MenuCommand::Unblock => {
                self.send(Effect::ToggleSenderBlock { sender: header.from.clone() });
            },
            MenuCommand::QuickActions | MenuCommand::Tags | MenuCommand::Snooze | MenuCommand::Move => {},
        }
    }

    /// The messages that putting off from the menu applies to.
    pub fn snooze_targets(&self, header: &MessageHeader, members: &Vec<MessageRef>) -> (targets: Vec<MessageRef>)
        ensures
            targets.deep_view() == (if members.len() > 1 {
                members.deep_view()
            } else {
                seq![header.deep_view().reference()]
            }),
    {
        if members.len() > 1 {
            return clone_list(members);
        }
        let mut targets: Vec<MessageRef> = Vec::new();
        targets.push(header.reference());
        assert(targets.deep_view() =~= seq![header.deep_view().reference()]);
        targets
    }

    /// What the move menu of a message applies to: its conversation, or itself.
    pub fn move_scope(&self, header: &MessageHeader, members: &Vec<MessageRef>) -> (scope: MoveScope)
        ensures
            scope.deep_view() == (if members.len() > 1 {
                MoveScopeView::Selection { references: members.deep_view() }
            } else {
                MoveScopeView::Message { reference: header.deep_view().reference() }
            }),
    {
        if members.len() > 1 {
            MoveScope::Selection { references: clone_list(members) }
        } else {
            MoveScope::Message { reference: header.reference() }
        }
    }

    /// Moves to a folder from the move menu; nothing while offline.
    pub fn move_to_folder(&mut self, scope: MoveScope, target: String, offline: bool)
        ensures
            final(self).asked(
                *old(self),
                if offline {
                    Seq::empty()
                } else {
                    let source = old(self).mailbox.selected_folder_id.deep_view();
                    match scope.deep_view() {
                        MoveScopeView::Message { reference } => seq![
                            EffectView::MoveTo { reference, source, target: target@ },
                        ],
                        MoveScopeView::Selection { references } => seq![
                            EffectView::MoveAllTo { references, source, target: target@ },
                        ],
                    }
                },
            ),
            *final(self) == (AviaryApp { effects: final(self).effects, ..*old(self) }),
    {
        assert(self.effects.deep_view() =~= old(self).effects.deep_view() + Seq::<EffectView>::empty());
        if offline {
            return;
        }
        let source = self.mailbox.selected_folder_id.clone();
        match scope {
            MoveScope::Message { reference } => {
                self.send(Effect::MoveTo { reference, source, target });
            },
            MoveScope::Selection { references } => {
                self.send(Effect::MoveAllTo { references, source, target });
            },
        }
    }
}

/// Offline, nothing in the menu that changes mail can be chosen.
pub proof fn law_offline_menus_change_nothing(facts: MenuFacts, i: int)
    requires
        facts.offline,
        0 <= i < facts.lines().len(),
    ensures
        match facts.lines()[i] {
            MenuLineView::Item { command, enabled, .. } => enabled ==> match command {
                MenuCommand::MarkRead
                | MenuCommand::MarkUnread
                | MenuCommand::Archive
                | MenuCommand::Junk
                | MenuCommand::NotJunk
                | MenuCommand::Block
                | MenuCommand::Unblock
                | MenuCommand::Delete => false,
                _ => true,
            },
            MenuLineView::Rule => true,
        },
{
    let upper = facts.upper();
    let middle = facts.middle();
    let lower = facts.lower();
    if i < upper.len() {
        assert(facts.lines()[i] == upper[i]);
    } else if i < upper.len() + middle.len() {
        assert(facts.lines()[i] == middle[i - upper.len()]);
    } else {
        assert(facts.lines()[i] == lower[i - upper.len() - middle.len()]);
    }
}

/// A conversation of one loaded message is acted on like a message alone.
pub proof fn law_lone_threads_are_messages(app: AviaryApp, command: MenuCommand, header: MessageHeaderView, member: MessageRefView)
    ensures
        app.command_asks(command, header, seq![member]) == app.command_asks(command, header, Seq::empty()),
{
    assert(thread_of(seq![member]) =~= thread_of(Seq::empty()));
}

} // verus!
