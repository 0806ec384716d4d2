//! Which messages the list shows, and which of them are selected.
use crate::app::other_reference;
use crate::lists::{first_index, lemma_first_index, retain_where, take_list};
use crate::message_list::{MsgEntry, MsgEntryView};
use crate::model::{clone_list, MessageHeader, MessageHeaderView, MessageRef, MessageRefView};
use crate::settings::deadline;
use crate::state::{AviaryApp, MailboxState, SelectionState};
use vstd::prelude::*;

verus! {

/// `refs` with `reference` in it.
pub open spec fn with_ref(refs: Seq<MessageRefView>, reference: MessageRefView) -> Seq<MessageRefView> {
    if refs.contains(reference) {
        refs
    } else {
        refs.push(reference)
    }
}

/// `refs` with all of `more` in it.
pub open spec fn with_refs(refs: Seq<MessageRefView>, more: Seq<MessageRefView>) -> Seq<MessageRefView>
    decreases more.len(),
{
    if more.len() == 0 {
        refs
    } else {
        with_ref(with_refs(refs, more.drop_last()), more.last())
    }
}

/// Whether `refs` holds `reference`.
pub(crate) fn holds_ref(refs: &Vec<MessageRef>, reference: &MessageRef) -> (found: bool)
    ensures
        found == refs.deep_view().contains(reference.deep_view()),
{
    let mut i: usize = 0;
    while i < refs.len()
        invariant
            i <= refs.len(),
            forall|j: int| 0 <= j < i ==> refs.deep_view()[j] != reference.deep_view(),
        decreases refs.len() - i,
    {
        assert(refs.deep_view()[i as int] == refs[i as int].deep_view());
        if refs[i] == *reference {
            return true;
        }
        i += 1;
    }
    false
}

/// Adds a message.
fn insert_ref(refs: &mut Vec<MessageRef>, reference: &MessageRef)
    ensures
        final(refs).deep_view() == with_ref(old(refs).deep_view(), reference.deep_view()),
{
    if !holds_ref(refs, reference) {
        let ghost before = refs.deep_view();
        refs.push(reference.clone());
        assert(refs.deep_view() =~= before.push(reference.deep_view()));
    }
}

/// Adds messages.
fn insert_refs(refs: &mut Vec<MessageRef>, more: &Vec<MessageRef>, from: usize, to: usize)
    requires
        from <= to <= more.len(),
    ensures
        final(refs).deep_view() == with_refs(
            old(refs).deep_view(),
            more.deep_view().subrange(from as int, to as int),
        ),
{
    let ghost start = refs.deep_view();
    let ghost all = more.deep_view();
    let mut i: usize = from;
    assert(all.subrange(from as int, from as int) =~= Seq::empty());
    while i < to
        invariant
            from <= i <= to <= more.len(),
            all == more.deep_view(),
            refs.deep_view() == with_refs(start, all.subrange(from as int, i as int)),
        decreases to - i,
    {
        assert(all[i as int] == more[i as int].deep_view());
        assert(all.subrange(from as int, i + 1).drop_last() =~= all.subrange(from as int, i as int));
        insert_ref(refs, &more[i]);
        i += 1;
    }
}

/// The messages that an entry of the list stands for: that of a row, the newest of a
/// conversation that is unfolded, all of one that is folded.
pub open spec fn entry_refs(entry: MsgEntryView) -> Seq<MessageRefView> {
    match entry {
        MsgEntryView::Header { .. } => Seq::empty(),
        MsgEntryView::Row { reference, .. } => seq![reference],
        MsgEntryView::Group { reference, group, .. } => if group.expanded {
            seq![reference]
        } else {
            group.members
        },
    }
}

/// The messages of the list in the order in which it shows them.
pub open spec fn ordered_refs(entries: Seq<MsgEntryView>) -> Seq<MessageRefView>
    decreases entries.len(),
{
    if entries.len() == 0 {
        Seq::empty()
    } else {
        ordered_refs(entries.drop_last()) + entry_refs(entries.last())
    }
}

/// The messages of the list in the order in which it shows them.
pub fn ordered_visible_message_references(entries: &Vec<MsgEntry>) -> (refs: Vec<MessageRef>)
    ensures
        refs.deep_view() == ordered_refs(entries.deep_view()),
{
    let ghost all = entries.deep_view();
    let mut refs: Vec<MessageRef> = Vec::new();
    let mut i: usize = 0;
    assert(refs.deep_view() =~= ordered_refs(all.take(0)));
    while i < entries.len()
        invariant
            i <= entries.len(),
            all == entries.deep_view(),
            refs.deep_view() == ordered_refs(all.take(i as int)),
        decreases entries.len() - i,
    {
        let ghost before = refs.deep_view();
        assert(all[i as int] == entries[i as int].deep_view());
        assert(all.take(i + 1).drop_last() =~= all.take(i as int));
        match &entries[i] {
            MsgEntry::Header { .. } => {
                assert(refs.deep_view() =~= before + Seq::empty());
            },
            MsgEntry::Row { reference, .. } => {
                refs.push(reference.clone());
                assert(refs.deep_view() =~= before + seq![reference.deep_view()]);
            },
            MsgEntry::Group { reference, group, .. } => {
                if group.expanded {
                    refs.push(reference.clone());
                    assert(refs.deep_view() =~= before + seq![reference.deep_view()]);
                } else {
                    let mut members = clone_list(&group.members);
                    let ghost shown = members.deep_view();
                    refs.append(&mut members);
                    assert(refs.deep_view() =~= before + shown);
                }
            },
        }
        i += 1;
    }
    assert(all.take(all.len() as int) =~= all);
    refs
}

/// Whether a message is the given one.
pub open spec fn same_reference(reference: MessageRefView) -> spec_fn(MessageRefView) -> bool {
    |other: MessageRefView| other == reference
}

/// Place of a message.
fn ref_place(refs: &Vec<MessageRef>, reference: &MessageRef) -> (place: Option<usize>)
    ensures
        match place {
            Some(i) => i < refs.len() && first_index(
                refs.deep_view(),
                same_reference(reference.deep_view()),
            ) == Some(i as int),
            None => first_index(refs.deep_view(), same_reference(reference.deep_view())) is None,
        },
{
    crate::lists::position_where(
        refs,
        |other: &MessageRef| -> (same: bool)
            ensures
                same == (other.deep_view() == reference.deep_view())
            { *other == *reference },
        Ghost(same_reference(reference.deep_view())),
    )
}

/// The messages between the anchor and the target, both included; the target alone where
/// the anchor is not shown.
pub open spec fn range_refs(visible: Seq<MessageRefView>, anchor: Option<MessageRefView>, target: MessageRefView) -> Seq<
    MessageRefView,
> {
    match first_index(visible, same_reference(target)) {
        None => Seq::empty(),
        Some(t) => {
            let found = match anchor {
                Some(anchor) => first_index(visible, same_reference(anchor)),
                None => None,
            };
            let a = match found {
                Some(a) => a,
                None => t,
            };
            if a <= t {
                visible.subrange(a, t + 1)
            } else {
                visible.subrange(t, a + 1)
            }
        },
    }
}

/// The state of a selected message that bulk actions read.
pub open spec fn state_of_header(header: MessageHeaderView) -> (MessageRefView, bool, bool) {
    (header.reference(), header.is_read, header.is_flagged)
}

impl AviaryApp {
    /// The headers that the list is made of: the results of a search, or those of the
    /// folder.
    pub open spec fn list_source(self) -> Seq<MessageHeaderView> {
        match self.mailbox.search.results.deep_view() {
            Some(results) => results,
            None => self.mailbox.messages.deep_view(),
        }
    }

    /// Whether a message was put off.
    pub open spec fn is_snoozed(self, header: MessageHeaderView) -> bool {
        deadline(self.settings.account_view(header.account_id).snoozed_messages, header.id) is Some
    }

    /// Whether a message carries all the tags that the list of its account is filtered by.
    pub open spec fn passes_tags(self, header: MessageHeaderView) -> bool {
        let filters = self.mailbox.filters.tag_filters@;
        filters == Map::<Seq<char>, Vec<String>>::empty() || (filters.contains_key(header.account_id)
            && self.carries_all(header, filters[header.account_id].deep_view()))
    }

    /// Whether a message carries all the given tags.
    pub open spec fn carries_all(self, header: MessageHeaderView, tag_ids: Seq<Seq<char>>) -> bool {
        forall|i: int| 0 <= i < tag_ids.len() ==> self.carries(header, #[trigger] tag_ids[i])
    }

    /// Whether the list shows a message: one that was put off only where those are asked
    /// for, and the others not there; flagged ones and those with the chosen tags where
    /// only these are asked for.
    pub open spec fn passes(self, header: MessageHeaderView) -> bool {
        &&& self.is_snoozed(header) == self.mailbox.filters.show_snoozed_only
        &&& !self.mailbox.filters.show_flagged_only || header.is_flagged
        &&& self.passes_tags(header)
    }

    /// Whether the list shows a message, as a test.
    pub open spec fn shown(self) -> spec_fn(MessageHeaderView) -> bool {
        |header: MessageHeaderView| self.passes(header)
    }

    /// The headers that the list shows.
    pub open spec fn filtered(self) -> Seq<MessageHeaderView> {
        self.list_source().filter(self.shown())
    }

    fn header_carries_all(&self, header: &MessageHeader, tag_ids: &Vec<String>) -> (all: bool)
        ensures
            all == self.carries_all(header.deep_view(), tag_ids.deep_view()),
    {
        let mut i: usize = 0;
        while i < tag_ids.len()
            invariant
                i <= tag_ids.len(),
                forall|j: int| 0 <= j < i ==> self.carries(header.deep_view(), #[trigger] tag_ids.deep_view()[j]),
            decreases tag_ids.len() - i,
        {
            assert(tag_ids.deep_view()[i as int] == tag_ids[i as int]@);
            if !self.header_has_native_tag(header, &tag_ids[i]) {
                return false;
            }
            i += 1;
        }
        true
    }

    fn header_passes(&self, header: &MessageHeader) -> (passes: bool)
        ensures
            passes == self.passes(header.deep_view()),
    {
        let snoozed = self.settings.snoozed_until(&header.account_id, header.id.as_str()).is_some();
        if snoozed != self.mailbox.filters.show_snoozed_only {
            return false;
        }
        if self.mailbox.filters.show_flagged_only && !header.is_flagged {
            return false;
        }
        if self.mailbox.filters.tag_filters.is_empty() {
            return true;
        }
        match self.mailbox.filters.tag_filters.get(&header.account_id) {
            Some(tag_ids) => self.header_carries_all(header, tag_ids),
            None => false,
        }
    }

    fn source_headers(&self) -> (headers: &Vec<MessageHeader>)
        ensures
            headers.deep_view() == self.list_source(),
    {
        match &self.mailbox.search.results {
            Some(results) => results,
            None => &self.mailbox.messages,
        }
    }

    /// The headers that the list shows, filters applied.
    pub fn filtered_message_headers(&self) -> (headers: Vec<&MessageHeader>)
        ensures
            headers.deep_view() == self.filtered(),
    {
        let source = self.source_headers();
        let ghost all = source.deep_view();
        let mut headers: Vec<&MessageHeader> = Vec::new();
        let mut i: usize = 0;
        proof {
            reveal(Seq::filter);
            assert(headers.deep_view() =~= all.take(0).filter(self.shown()));
        }
        while i < source.len()
            invariant
                i <= source.len(),
                all == source.deep_view(),
                headers.deep_view() == all.take(i as int).filter(self.shown()),
            decreases source.len() - i,
        {
            let ghost before = headers.deep_view();
            proof {
                reveal(Seq::filter);
                assert(all[i as int] == source[i as int].deep_view());
                assert(all.take(i + 1).drop_last() =~= all.take(i as int));
            }
            if self.header_passes(&source[i]) {
                headers.push(&source[i]);
                assert(headers.deep_view() =~= before.push(all[i as int]));
            }
            i += 1;
        }
        assert(all.take(all.len() as int) =~= all);
        headers
    }

    /// The messages that the list shows.
    pub open spec fn visible_refs(self) -> Seq<MessageRefView> {
        self.filtered().map_values(|header: MessageHeaderView| header.reference())
    }

    /// The messages that the list shows.
    pub fn visible_message_references(&self) -> (refs: Vec<MessageRef>)
        ensures
            refs.deep_view() == self.visible_refs(),
    {
        let headers = self.filtered_message_headers();
        let mut refs: Vec<MessageRef> = Vec::new();
        let mut i: usize = 0;
        while i < headers.len()
            invariant
                i <= headers.len(),
                refs.len() == i,
                forall|j: int| 0 <= j < i ==> (#[trigger] refs[j]).deep_view() == headers[j].deep_view().reference(),
            decreases headers.len() - i,
        {
            refs.push(headers[i].reference());
            i += 1;
        }
        assert(refs.deep_view() =~= self.visible_refs());
        refs
    }

    /// Nothing is selected.
    pub fn clear_message_selection(&mut self)
        ensures
            final(self).mailbox.selection.messages.deep_view() == Seq::<MessageRefView>::empty(),
            *final(self) == (AviaryApp {
                mailbox: MailboxState {
                    selection: SelectionState {
                        messages: final(self).mailbox.selection.messages,
                        anchor: None,
                    },
                    ..old(self).mailbox
                },
                ..*old(self)
            }),
    {
        self.mailbox.selection.messages = Vec::new();
        self.mailbox.selection.anchor = None;
        assert(self.mailbox.selection.messages.deep_view() =~= Seq::empty());
    }

    /// The selection after one message was selected or not.
    pub open spec fn toggled(selection: (Seq<MessageRefView>, Option<MessageRefView>), reference: MessageRefView, checked: bool) -> (
        Seq<MessageRefView>,
        Option<MessageRefView>,
    ) {
        if checked {
            (with_ref(selection.0, reference), Some(reference))
        } else {
            (
                selection.0.filter(other_reference(reference)),
                if selection.1 == Some(reference) {
                    None
                } else {
                    selection.1
                },
            )
        }
    }

    /// What is selected, and from where a range starts.
    pub open spec fn selection_state(self) -> (Seq<MessageRefView>, Option<MessageRefView>) {
        (self.mailbox.selection.messages.deep_view(), self.mailbox.selection.anchor.deep_view())
    }

    /// Nothing but the selection differs.
    pub open spec fn same_but_selection(self, other: AviaryApp) -> bool {
        self == (AviaryApp {
            mailbox: MailboxState { selection: self.mailbox.selection, ..other.mailbox },
            ..other
        })
    }

    /// Selects a message or not.
    pub fn toggle_message_selection(&mut self, reference: MessageRef, checked: bool)
        ensures
            final(self).selection_state() == Self::toggled(
                old(self).selection_state(),
                reference.deep_view(),
                checked,
            ),
            final(self).same_but_selection(*old(self)),
    {
        if checked {
            insert_ref(&mut self.mailbox.selection.messages, &reference);
            self.mailbox.selection.anchor = Some(reference);
        } else {
            let taken = take_list(&mut self.mailbox.selection.messages);
            self.mailbox.selection.messages = retain_where(
                taken,
                |other: &MessageRef| -> (keep: bool)
                    ensures
                        keep == (other.deep_view() != reference.deep_view())
                    { *other != reference },
                Ghost(other_reference(reference.deep_view())),
            );
            let anchored = match &self.mailbox.selection.anchor {
                Some(anchor) => *anchor == reference,
                None => false,
            };
            if anchored {
                self.mailbox.selection.anchor = None;
            }
        }
    }

    /// The selection after several messages were selected or not, one after the other.
    pub open spec fn toggled_all(
        selection: (Seq<MessageRefView>, Option<MessageRefView>),
        members: Seq<MessageRefView>,
        checked: bool,
    ) -> (Seq<MessageRefView>, Option<MessageRefView>)
        decreases members.len(),
    {
        if members.len() == 0 {
            selection
        } else {
            Self::toggled(Self::toggled_all(selection, members.drop_last(), checked), members.last(), checked)
        }
    }

    /// Selects the loaded members of a conversation or not.
    pub fn toggle_conversation_selection(&mut self, members: &Vec<MessageRef>, checked: bool)
        ensures
            final(self).selection_state() == Self::toggled_all(
                old(self).selection_state(),
                members.deep_view(),
                checked,
            ),
            final(self).same_but_selection(*old(self)),
    {
        let ghost start = *self;
        let ghost all = members.deep_view();
        let mut i: usize = 0;
        assert(all.take(0) =~= Seq::empty());
        while i < members.len()
            invariant
                i <= members.len(),
                all == members.deep_view(),
                self.selection_state() == Self::toggled_all(start.selection_state(), all.take(i as int), checked),
                self.same_but_selection(start),
            decreases members.len() - i,
        {
            assert(all[i as int] == members[i as int].deep_view());
            assert(all.take(i + 1).drop_last() =~= all.take(i as int));
            self.toggle_message_selection(members[i].clone(), checked);
            i += 1;
        }
        assert(all.take(all.len() as int) =~= all);
    }

    /// A selection and its anchor once it reaches to `target`.
    pub open spec fn extended(
        selection: (Seq<MessageRefView>, Option<MessageRefView>),
        visible: Seq<MessageRefView>,
        target: MessageRefView,
    ) -> (Seq<MessageRefView>, Option<MessageRefView>) {
        (
            with_refs(selection.0, range_refs(visible, selection.1, target)),
            if selection.1 is None && first_index(visible, same_reference(target)) is Some {
                Some(target)
            } else {
                selection.1
            },
        )
    }

    /// Selects what lies between the anchor and `target` in the list, on top of what is
    /// selected. `entries` are those that the list shows.
    pub fn select_message_range(&mut self, target: MessageRef, entries: &Vec<MsgEntry>)
        ensures
            final(self).selection_state() == Self::extended(
                old(self).selection_state(),
                ordered_refs(entries.deep_view()),
                target.deep_view(),
            ),
            final(self).same_but_selection(*old(self)),
    {
        let visible = ordered_visible_message_references(entries);
        let target_index = match ref_place(&visible, &target) {
            Some(i) => i,
            None => {
                return;
            },
        };
        let found = match &self.mailbox.selection.anchor {
            Some(anchor) => ref_place(&visible, anchor),
            None => None,
        };
        let anchor_index = match found {
            Some(i) => i,
            None => target_index,
        };
        if anchor_index <= target_index {
            insert_refs(&mut self.mailbox.selection.messages, &visible, anchor_index, target_index + 1);
        } else {
            insert_refs(&mut self.mailbox.selection.messages, &visible, target_index, anchor_index + 1);
        }
        if self.mailbox.selection.anchor.is_none() {
            self.mailbox.selection.anchor = Some(target);
        }
    }

    /// Selects all that the list shows.
    pub fn select_all_visible_messages(&mut self)
        ensures
            final(self).selection_state() == (
                with_refs(old(self).selection_state().0, old(self).visible_refs()),
                if old(self).visible_refs().len() > 0 {
                    Some(old(self).visible_refs()[0])
                } else {
                    None
                },
            ),
            final(self).same_but_selection(*old(self)),
    {
        let visible = self.visible_message_references();
        let ghost all = visible.deep_view();
        let n: usize = visible.len();
        insert_refs(&mut self.mailbox.selection.messages, &visible, 0, n);
        assert(all.subrange(0, n as int) =~= all);
        self.mailbox.selection.anchor = if n > 0 {
            assert(all[0] == visible[0].deep_view());
            Some(visible[0].clone())
        } else {
            None
        };
    }

    /// Whether a message is selected, as a test.
    pub open spec fn is_selected(self) -> spec_fn(MessageHeaderView) -> bool {
        |header: MessageHeaderView| self.mailbox.selection.messages.deep_view().contains(header.reference())
    }

    /// The selected messages that the list shows, in its order.
    pub open spec fn selected_headers(self) -> Seq<MessageHeaderView> {
        self.filtered().filter(self.is_selected())
    }

    /// The selected messages that the list shows, in its order.
    pub fn selected_message_headers(&self) -> (headers: Vec<MessageHeader>)
        ensures
            headers.deep_view() == self.selected_headers(),
    {
        let shown = self.filtered_message_headers();
        let ghost all = shown.deep_view();
        let mut headers: Vec<MessageHeader> = Vec::new();
        let mut i: usize = 0;
        proof {
            reveal(Seq::filter);
            assert(headers.deep_view() =~= all.take(0).filter(self.is_selected()));
        }
        while i < shown.len()
            invariant
                i <= shown.len(),
                all == shown.deep_view(),
                headers.deep_view() == all.take(i as int).filter(self.is_selected()),
            decreases shown.len() - i,
        {
            let ghost before = headers.deep_view();
            proof {
                reveal(Seq::filter);
                assert(all[i as int] == shown[i as int].deep_view());
                assert(all.take(i + 1).drop_last() =~= all.take(i as int));
            }
            if holds_ref(&self.mailbox.selection.messages, &shown[i].reference()) {
                headers.push(shown[i].clone());
                assert(headers.deep_view() =~= before.push(all[i as int]));
            }
            i += 1;
        }
        assert(all.take(all.len() as int) =~= all);
        headers
    }

    /// Whether a message is one of `wanted`, as a test.
    pub open spec fn one_of(wanted: Seq<MessageRefView>) -> spec_fn(MessageHeaderView) -> bool {
        |header: MessageHeaderView| wanted.contains(header.reference())
    }

    /// Reference, read and flagged state of those of `wanted` that the list shows, in its
    /// order. What is no longer loaded is left out.
    pub fn message_states_where(&self, wanted: &Vec<MessageRef>) -> (states: Vec<(MessageRef, bool, bool)>)
        ensures
            states.deep_view() == self.filtered().filter(Self::one_of(wanted.deep_view())).map_values(
                |header: MessageHeaderView| state_of_header(header),
            ),
    {
        let shown = self.filtered_message_headers();
        let ghost all = shown.deep_view();
        let ghost test = Self::one_of(wanted.deep_view());
        let ghost state = |header: MessageHeaderView| state_of_header(header);
        let mut states: Vec<(MessageRef, bool, bool)> = Vec::new();
        let mut i: usize = 0;
        proof {
            reveal(Seq::filter);
            assert(states.deep_view() =~= all.take(0).filter(test).map_values(state));
        }
        while i < shown.len()
            invariant
                i <= shown.len(),
                all == shown.deep_view(),
                test == Self::one_of(wanted.deep_view()),
                state == (|header: MessageHeaderView| state_of_header(header)),
                states.deep_view() == all.take(i as int).filter(test).map_values(state),
            decreases shown.len() - i,
        {
            let ghost before = states.deep_view();
            proof {
                reveal(Seq::filter);
                assert(all[i as int] == shown[i as int].deep_view());
                assert(all.take(i + 1).drop_last() =~= all.take(i as int));
                let front = all.take(i as int).filter(test);
                assert(front.push(all[i as int]).map_values(state) =~= front.map_values(state).push(
                    state(all[i as int]),
                ));
            }
            let reference = shown[i].reference();
            if holds_ref(wanted, &reference) {
                states.push((reference, shown[i].is_read, shown[i].is_flagged));
                assert(states.deep_view() =~= before.push(state(all[i as int])));
            }
            i += 1;
        }
        assert(all.take(all.len() as int) =~= all);
        states
    }

    /// Reference, read and flagged state of the selected messages.
    pub fn selected_message_states(&self) -> (states: Vec<(MessageRef, bool, bool)>)
        ensures
            states.deep_view() == self.filtered().filter(
                Self::one_of(self.mailbox.selection.messages.deep_view()),
            ).map_values(|header: MessageHeaderView| state_of_header(header)),
    {
        self.message_states_where(&self.mailbox.selection.messages)
    }

    /// What is selected and no longer shown is not selected any more.
    pub fn prune_selection(&mut self)
        ensures
            final(self).selection_state() == (
                old(self).selection_state().0.filter(|reference: MessageRefView| old(self).visible_refs().contains(reference)),
                old(self).selection_state().1,
            ),
            final(self).same_but_selection(*old(self)),
    {
        let ghost visible_refs = self.visible_refs();
        let ghost test = |reference: MessageRefView| visible_refs.contains(reference);
        let ghost wanted = |reference: MessageRefView| old(self).visible_refs().contains(reference);
        assert(test =~= wanted);
        let visible = self.visible_message_references();
        let taken = take_list(&mut self.mailbox.selection.messages);
        self.mailbox.selection.messages = retain_where(
            taken,
            |reference: &MessageRef| -> (keep: bool)
                ensures
                    keep == visible_refs.contains(reference.deep_view())
                { holds_ref(&visible, reference) },
            Ghost(test),
        );
    }
}

/// A message that is selected and then not is selected no more; the others stay as they
/// were. To select twice is to select once.
pub proof fn law_selecting_is_undone(selection: (Seq<MessageRefView>, Option<MessageRefView>), reference: MessageRefView)
    ensures
        !AviaryApp::toggled(AviaryApp::toggled(selection, reference, true), reference, false).0.contains(reference),
        AviaryApp::toggled(selection, reference, true).0.contains(reference),
        AviaryApp::toggled(AviaryApp::toggled(selection, reference, true), reference, true) == AviaryApp::toggled(
            selection,
            reference,
            true,
        ),
        forall|other: MessageRefView|
            #![trigger selection.0.contains(other)]
            other != reference ==> (selection.0.contains(other) <==> AviaryApp::toggled(
                AviaryApp::toggled(selection, reference, true),
                reference,
                false,
            ).0.contains(other)),
{
    let on = with_ref(selection.0, reference);
    assert(on.contains(reference)) by {
        if !selection.0.contains(reference) {
            assert(on[selection.0.len() as int] == reference);
        }
    }
    lemma_without(on, reference);
    assert forall|other: MessageRefView| #![trigger selection.0.contains(other)] other != reference implies (
    selection.0.contains(other) <==> on.filter(other_reference(reference)).contains(other)) by {
        if selection.0.contains(other) {
            let k = choose|k: int| 0 <= k < selection.0.len() && selection.0[k] == other;
            assert(on[k] == other);
        }
        if on.contains(other) {
            let k = choose|k: int| 0 <= k < on.len() && on[k] == other;
            assert(k < selection.0.len());
            assert(selection.0[k] == other);
        }
    }
}

proof fn lemma_without(refs: Seq<MessageRefView>, reference: MessageRefView)
    ensures
        !refs.filter(other_reference(reference)).contains(reference),
        forall|other: MessageRefView|
            other != reference ==> (#[trigger] refs.filter(other_reference(reference)).contains(other)
                <==> refs.contains(other)),
    decreases refs.len(),
{
    reveal(Seq::filter);
    let kept = refs.filter(other_reference(reference));
    if refs.len() > 0 {
        let init = refs.drop_last();
        lemma_without(init, reference);
        let front = init.filter(other_reference(reference));
        assert(init.push(refs.last()) =~= refs);
        assert forall|other: MessageRefView| other != reference implies (#[trigger] kept.contains(other)
            <==> refs.contains(other)) by {
            assert(front.contains(other) <==> init.contains(other));
            crate::message_list::lemma_contains_push(init, refs.last(), other);
            if refs.last() != reference {
                crate::message_list::lemma_contains_push(front, refs.last(), other);
            }
        }
        if refs.last() != reference {
            crate::message_list::lemma_contains_push(front, refs.last(), reference);
        }
    }
}

/// A range holds the message that was clicked and, where it is shown, the one that the
/// range starts from, and no message that the list does not show.
pub proof fn law_ranges_are_what_is_seen(visible: Seq<MessageRefView>, anchor: Option<MessageRefView>, target: MessageRefView)
    requires
        visible.contains(target),
    ensures
        range_refs(visible, anchor, target).contains(target),
        anchor is Some && visible.contains(anchor->0) ==> range_refs(visible, anchor, target).contains(anchor->0),
        forall|reference: MessageRefView| #[trigger]
            range_refs(visible, anchor, target).contains(reference) ==> visible.contains(reference),
{
    lemma_first_index(visible, same_reference(target));
    let k = choose|k: int| 0 <= k < visible.len() && visible[k] == target;
    assert(same_reference(target)(visible[k]));
    let t = first_index(visible, same_reference(target))->0;
    let range = range_refs(visible, anchor, target);
    let a = match anchor {
        Some(anchor) => {
            lemma_first_index(visible, same_reference(anchor));
            if visible.contains(anchor) {
                let j = choose|j: int| 0 <= j < visible.len() && visible[j] == anchor;
                assert(same_reference(anchor)(visible[j]));
            }
            match first_index(visible, same_reference(anchor)) {
                Some(a) => a,
                None => t,
            }
        },
        None => t,
    };
    if a <= t {
        assert(range[t - a] == visible[t]);
        assert(range[0] == visible[a]);
    } else {
        assert(range[0] == visible[t]);
        assert(range[a - t] == visible[a]);
    }
    assert forall|reference: MessageRefView| #[trigger] range.contains(reference) implies visible.contains(
        reference,
    ) by {
        let i = choose|i: int| 0 <= i < range.len() && range[i] == reference;
        let low = if a <= t {
            a
        } else {
            t
        };
        assert(visible[low + i] == reference);
    }
}

} // verus!
