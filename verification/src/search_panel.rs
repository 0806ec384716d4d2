//! The panel under the search field: suggestions, sort order and reach.
use crate::account_map::AccountMap;
use crate::folder_events::folder_named;
use crate::folder_tree::{folder_display_label, folder_label, Label, LabelView};
use crate::lists::{first_where, lemma_first_index, position_where};
use crate::model::{AccountId, Contact, ContactView, MailFolder, MailFolderView};
use crate::settings::{MailSearchScope, MailSearchSort};
use crate::state::{AviaryApp, MailboxState, SearchState};
use crate::text::{chars_of, trim, trimmed};
use vstd::prelude::*;

verus! {

/// Most contacts that are suggested.
pub const SEARCH_CONTACT_SUGGESTIONS: usize = 4;

/// Most earlier searches that are suggested.
pub const SEARCH_HISTORY_SUGGESTIONS: usize = 4;

/// What is suggested under the search field: contacts, and then earlier searches.
#[derive(Debug, PartialEq, Eq)]
pub struct MailSearchSuggestions {
    pub query_empty: bool,
    pub contacts: Vec<Contact>,
    pub history: Vec<String>,
}

/// Mathematical form of [`MailSearchSuggestions`].
#[verifier::ext_equal]
pub struct MailSearchSuggestionsView {
    pub query_empty: bool,
    pub contacts: Seq<ContactView>,
    pub history: Seq<Seq<char>>,
}

impl DeepView for MailSearchSuggestions {
    type V = MailSearchSuggestionsView;

    open spec fn deep_view(&self) -> MailSearchSuggestionsView {
        MailSearchSuggestionsView {
            query_empty: self.query_empty,
            contacts: self.contacts.deep_view(),
            history: self.history.deep_view(),
        }
    }
}


/// A suggested contact as it is shown.
#[derive(Debug, PartialEq, Eq)]
pub struct ContactRow {
    pub label: String,
    pub email: String,
    /// Whether the address stands under the label.
    pub show_email: bool,
    pub selected: bool,
}

/// Mathematical form of [`ContactRow`].
#[verifier::ext_equal]
pub struct ContactRowView {
    pub label: Seq<char>,
    pub email: Seq<char>,
    pub show_email: bool,
    pub selected: bool,
}

impl DeepView for ContactRow {
    type V = ContactRowView;

    open spec fn deep_view(&self) -> ContactRowView {
        ContactRowView {
            label: self.label.deep_view(),
            email: self.email.deep_view(),
            show_email: self.show_email,
            selected: self.selected,
        }
    }
}


/// The contacts of the panel.
#[derive(Debug, PartialEq, Eq)]
pub enum ContactSection {
    /// Nothing is typed yet.
    Hint,
    Nobody,
    Rows { rows: Vec<ContactRow> },
}

/// Mathematical form of [`ContactSection`].
#[verifier::ext_equal]
pub enum ContactSectionView {
    Hint,
    Nobody,
    Rows { rows: Seq<ContactRowView> },
}

impl DeepView for ContactSection {
    type V = ContactSectionView;

    open spec fn deep_view(&self) -> ContactSectionView {
        match self {
            ContactSection::Hint => ContactSectionView::Hint,
            ContactSection::Nobody => ContactSectionView::Nobody,
            ContactSection::Rows { rows } => ContactSectionView::Rows { rows: rows.deep_view() },
        }
    }
}


/// An earlier search as it is shown.
#[derive(Debug, PartialEq, Eq)]
pub struct HistoryRow {
    pub query: String,
    pub selected: bool,
}

/// Mathematical form of [`HistoryRow`].
#[verifier::ext_equal]
pub struct HistoryRowView {
    pub query: Seq<char>,
    pub selected: bool,
}

impl DeepView for HistoryRow {
    type V = HistoryRowView;

    open spec fn deep_view(&self) -> HistoryRowView {
        HistoryRowView {
            query: self.query.deep_view(),
            selected: self.selected,
        }
    }
}


/// Earlier searches, and the choices of order and reach below them.
#[derive(Debug, PartialEq, Eq)]
pub struct SearchHistory {
    pub rows: Vec<HistoryRow>,
    /// Whether a button clears them.
    pub clearable: bool,
    /// The orders, each with whether it is the chosen one.
    pub sorts: Vec<(MailSearchSort, bool)>,
    /// The reaches, each with whether it is the chosen one.
    pub scopes: Vec<(MailSearchScope, bool)>,
    /// Name of the folder that the narrow reach stays in.
    pub folder: Label,
}

/// Mathematical form of [`SearchHistory`].
#[verifier::ext_equal]
pub struct SearchHistoryView {
    pub rows: Seq<HistoryRowView>,
    pub clearable: bool,
    pub sorts: Seq<(MailSearchSort, bool)>,
    pub scopes: Seq<(MailSearchScope, bool)>,
    pub folder: LabelView,
}

impl DeepView for SearchHistory {
    type V = SearchHistoryView;

    open spec fn deep_view(&self) -> SearchHistoryView {
        SearchHistoryView {
            rows: self.rows.deep_view(),
            clearable: self.clearable,
            sorts: self.sorts.deep_view(),
            scopes: self.scopes.deep_view(),
            folder: self.folder.deep_view(),
        }
    }
}


/// The panel under the search field.
#[derive(Debug, PartialEq, Eq)]
pub struct SearchPanel {
    pub contacts: ContactSection,
    pub history: SearchHistory,
    pub operator_hints: bool,
}

/// Mathematical form of [`SearchPanel`].
#[verifier::ext_equal]
pub struct SearchPanelView {
    pub contacts: ContactSectionView,
    pub history: SearchHistoryView,
    pub operator_hints: bool,
}

impl DeepView for SearchPanel {
    type V = SearchPanelView;

    open spec fn deep_view(&self) -> SearchPanelView {
        SearchPanelView {
            contacts: self.contacts.deep_view(),
            history: self.history.deep_view(),
            operator_hints: self.operator_hints,
        }
    }
}



/// Lower case of a letter of ASCII, and any other character as it is.
pub open spec fn ascii_lower(c: char) -> char {
    if 'A' <= c <= 'Z' {
        ((c as u8) + 32) as char
    } else {
        c
    }
}

/// Whether two texts are the same up to the case of letters of ASCII.
pub open spec fn same_but_ascii_case(a: Seq<char>, b: Seq<char>) -> bool {
    &&& a.len() == b.len()
    &&& forall|i: int| 0 <= i < a.len() ==> ascii_lower(#[trigger] a[i]) == ascii_lower(b[i])
}

pub(crate) fn lower_of(c: char) -> (lower: char)
    ensures
        lower == ascii_lower(c),
{
    if 'A' <= c && c <= 'Z' {
        let code: u8 = c as u8;
        (code + 32) as char
    } else {
        c
    }
}

/// Whether two texts are the same up to the case of letters of ASCII.
pub fn eq_ignore_ascii_case(a: &str, b: &str) -> (same: bool)
    ensures
        same == same_but_ascii_case(a@, b@),
{
    let left = chars_of(a);
    let right = chars_of(b);
    if left.len() != right.len() {
        return false;
    }
    let mut i: usize = 0;
    while i < left.len()
        invariant
            left@ == a@,
            right@ == b@,
            left.len() == right.len(),
            i <= left.len(),
            forall|j: int| 0 <= j < i ==> ascii_lower(#[trigger] a@[j]) == ascii_lower(b@[j]),
        decreases left.len() - i,
    {
        if lower_of(left[i]) != lower_of(right[i]) {
            assert(ascii_lower(a@[i as int]) != ascii_lower(b@[i as int]));
            return false;
        }
        i += 1;
    }
    true
}

/// At most the first `count` items.
pub open spec fn at_most<V>(items: Seq<V>, count: int) -> Seq<V> {
    if items.len() <= count {
        items
    } else {
        items.take(count)
    }
}

fn first_items<T: DeepView + Clone>(items: &Vec<T>, count: usize) -> (first: Vec<T>)
    requires
        forall|x: &T, y: T| call_ensures(T::clone, (x,), y) ==> y.deep_view() == x.deep_view(),
        forall|x: &T| call_requires(T::clone, (x,)),
    ensures
        first.deep_view() == at_most(items.deep_view(), count as int),
{
    let mut first: Vec<T> = Vec::new();
    let mut i: usize = 0;
    while i < items.len() && i < count
        invariant
            i <= items.len(),
            i <= count,
            first.len() == i,
            forall|j: int| 0 <= j < i ==> (#[trigger] first[j]).deep_view() == items[j].deep_view(),
            forall|x: &T, y: T| call_ensures(T::clone, (x,), y) ==> y.deep_view() == x.deep_view(),
            forall|x: &T| call_requires(T::clone, (x,)),
        decreases items.len() - i,
    {
        first.push(items[i].clone());
        i += 1;
    }
    assert(first.deep_view() =~= at_most(items.deep_view(), count as int));
    first
}

impl MailSearchSuggestionsView {
    /// How many there are.
    pub open spec fn count(self) -> int {
        (self.contacts.len() + self.history.len()) as int
    }

    /// What the suggestion at `index` searches for.
    pub open spec fn query(self, index: int) -> Option<Seq<char>> {
        if 0 <= index < self.contacts.len() {
            Some(self.contacts[index].email)
        } else if self.contacts.len() <= index < self.count() {
            Some(self.history[index - self.contacts.len()])
        } else {
            None
        }
    }
}

impl MailSearchSuggestions {
    /// How many there are.
    pub fn len(&self) -> (len: usize)
        requires
            self.deep_view().count() <= usize::MAX,
        ensures
            len == self.deep_view().count(),
    {
        self.contacts.len() + self.history.len()
    }

    /// What the suggestion at `index` searches for.
    pub fn query_at(&self, index: usize) -> (query: Option<String>)
        ensures
            query.deep_view() == self.deep_view().query(index as int),
    {
        if index < self.contacts.len() {
            assert(self.deep_view().contacts[index as int] == self.contacts[index as int].deep_view());
            return Some(self.contacts[index].email.clone());
        }
        let place: usize = index - self.contacts.len();
        if place < self.history.len() {
            assert(self.deep_view().history[place as int] == self.history[place as int].deep_view());
            return Some(self.history[place].clone());
        }
        None
    }
}

/// Where the choice moves to among `len` suggestions: it wraps at both ends.
pub open spec fn moved_choice(choice: Option<usize>, down: bool, len: int) -> usize {
    match choice {
        None => if down {
            0
        } else {
            (len - 1) as usize
        },
        Some(index) => if down {
            ((index + 1) % len) as usize
        } else {
            ((index + len - 1) % len) as usize
        },
    }
}

/// A suggested contact as it is shown.
pub open spec fn contact_row(contact: ContactView, selected: bool) -> ContactRowView {
    let label = if trimmed(contact.name).len() == 0 {
        contact.email
    } else {
        contact.name
    };
    ContactRowView { label, email: contact.email, show_email: !same_but_ascii_case(label, contact.email), selected }
}

/// The contacts of the panel.
pub open spec fn contact_section(suggestions: MailSearchSuggestionsView, choice: Option<usize>) -> ContactSectionView {
    if suggestions.query_empty {
        ContactSectionView::Hint
    } else if suggestions.contacts.len() == 0 {
        ContactSectionView::Nobody
    } else {
        ContactSectionView::Rows {
            rows: Seq::new(
                suggestions.contacts.len(),
                |i: int| contact_row(suggestions.contacts[i], choice is Some && choice->0 == i),
            ),
        }
    }
}

/// Earlier searches as they are shown.
pub open spec fn history_rows(suggestions: MailSearchSuggestionsView, choice: Option<usize>) -> Seq<HistoryRowView> {
    Seq::new(
        suggestions.history.len(),
        |i: int|
            HistoryRowView {
                query: suggestions.history[i],
                selected: choice is Some && choice->0 == suggestions.contacts.len() + i,
            },
    )
}

fn row_of_contact(contact: &Contact, selected: bool) -> (row: ContactRow)
    ensures
        row.deep_view() == contact_row(contact.deep_view(), selected),
{
    let core = trim(contact.name.as_str());
    let label = if core.as_str().is_empty() {
        contact.email.clone()
    } else {
        contact.name.clone()
    };
    let show_email = !eq_ignore_ascii_case(label.as_str(), contact.email.as_str());
    ContactRow { label, email: contact.email.clone(), show_email, selected }
}

/// The contacts of the panel.
pub fn search_contacts(suggestions: &MailSearchSuggestions, choice: Option<usize>) -> (section: ContactSection)
    ensures
        section.deep_view() == contact_section(suggestions.deep_view(), choice),
{
    if suggestions.query_empty {
        return ContactSection::Hint;
    }
    if suggestions.contacts.len() == 0 {
        return ContactSection::Nobody;
    }
    let ghost all = suggestions.deep_view();
    let mut rows: Vec<ContactRow> = Vec::new();
    let mut i: usize = 0;
    while i < suggestions.contacts.len()
        invariant
            i <= suggestions.contacts.len(),
            all == suggestions.deep_view(),
            rows.len() == i,
            forall|j: int|
                0 <= j < i ==> (#[trigger] rows[j]).deep_view() == contact_row(
                    all.contacts[j],
                    choice is Some && choice->0 == j,
                ),
        decreases suggestions.contacts.len() - i,
    {
        let selected = match choice {
            Some(index) => index == i,
            None => false,
        };
        assert(all.contacts[i as int] == suggestions.contacts[i as int].deep_view());
        rows.push(row_of_contact(&suggestions.contacts[i], selected));
        i += 1;
    }
    let section = ContactSection::Rows { rows };
    proof {
        let shown = section.deep_view()->rows;
        let wanted = contact_section(all, choice)->rows;
        assert(shown.len() == wanted.len());
        assert forall|j: int| 0 <= j < shown.len() implies #[trigger] shown[j] == wanted[j] by {
            assert(rows[j].deep_view() == shown[j]);
        }
        assert(shown =~= wanted);
    }
    section
}

fn search_history_rows(suggestions: &MailSearchSuggestions, choice: Option<usize>) -> (rows: Vec<HistoryRow>)
    ensures
        rows.deep_view() == history_rows(suggestions.deep_view(), choice),
{
    let ghost all = suggestions.deep_view();
    let contacts: usize = suggestions.contacts.len();
    let mut rows: Vec<HistoryRow> = Vec::new();
    let mut i: usize = 0;
    while i < suggestions.history.len()
        invariant
            i <= suggestions.history.len(),
            all == suggestions.deep_view(),
            contacts == all.contacts.len(),
            rows.len() == i,
            forall|j: int|
                0 <= j < i ==> (#[trigger] rows[j]).deep_view() == (HistoryRowView {
                    query: all.history[j],
                    selected: choice is Some && choice->0 == contacts + j,
                }),
        decreases suggestions.history.len() - i,
    {
        let selected = match choice {
            Some(index) => index >= contacts && index - contacts == i,
            None => false,
        };
        assert(all.history[i as int] == suggestions.history[i as int].deep_view());
        rows.push(HistoryRow { query: suggestions.history[i].clone(), selected });
        i += 1;
    }
    assert(rows.deep_view() =~= history_rows(all, choice));
    rows
}

/// The folders of all accounts, in the order of the accounts.
pub open spec fn all_folders(entries: Seq<(AccountId, Vec<MailFolder>)>) -> Seq<MailFolderView>
    decreases entries.len(),
{
    if entries.len() == 0 {
        Seq::empty()
    } else {
        all_folders(entries.drop_last()) + entries.last().1.deep_view()
    }
}

proof fn lemma_first_of_two<V>(a: Seq<V>, b: Seq<V>, p: spec_fn(V) -> bool)
    ensures
        first_where(a + b, p) == (match first_where(a, p) {
            Some(x) => Some(x),
            None => first_where(b, p),
        }),
{
    lemma_first_index(a, p);
    lemma_first_index(b, p);
    lemma_first_index(a + b, p);
    match crate::lists::first_index(a, p) {
        Some(i) => {
            assert((a + b)[i] == a[i]);
            assert forall|j: int| 0 <= j < i implies !p(#[trigger] (a + b)[j]) by {
                assert((a + b)[j] == a[j]);
            }
            crate::lists::lemma_first_index_is(a + b, p, i);
        },
        None => {
            match crate::lists::first_index(b, p) {
                Some(i) => {
                    let at = a.len() + i;
                    assert((a + b)[at] == b[i]);
                    assert forall|j: int| 0 <= j < at implies !p(#[trigger] (a + b)[j]) by {
                        if j < a.len() {
                            assert((a + b)[j] == a[j]);
                        } else {
                            assert((a + b)[j] == b[j - a.len()]);
                        }
                    }
                    crate::lists::lemma_first_index_is(a + b, p, at);
                },
                None => {
                    match crate::lists::first_index(a + b, p) {
                        Some(j) => {
                            if j < a.len() {
                                assert((a + b)[j] == a[j]);
                            } else {
                                assert((a + b)[j] == b[j - a.len()]);
                            }
                        },
                        None => {},
                    }
                },
            }
        },
    }
}

/// The folder with the given id, whichever account it belongs to.
pub fn find_folder<'a>(folders: &'a AccountMap<Vec<MailFolder>>, id: &String) -> (found: Option<&'a MailFolder>)
    ensures
        found.deep_view() == first_where(all_folders(folders.entries@), folder_named(id@)),
{
    let ghost entries = folders.entries@;
    let mut i: usize = 0;
    while i < folders.entries.len()
        invariant
            i <= folders.entries.len(),
            entries == folders.entries@,
            first_where(all_folders(entries.take(i as int)), folder_named(id@)) is None,
        decreases folders.entries.len() - i,
    {
        let list = &folders.entries[i].1;
        proof {
            assert(entries.take(i + 1).drop_last() =~= entries.take(i as int));
            lemma_first_of_two(all_folders(entries.take(i as int)), list.deep_view(), folder_named(id@));
            lemma_first_index(list.deep_view(), folder_named(id@));
        }
        let found = position_where(
            list,
            |folder: &MailFolder| -> (same: bool)
                ensures
                    same == (folder.deep_view().id == id@)
                { folder.id == *id },
            Ghost(folder_named(id@)),
        );
        if let Some(at) = found {
            proof {
                assert(list.deep_view()[at as int] == list[at as int].deep_view());
                lemma_folders_keep_first(entries, i + 1, folder_named(id@));
            }
            return Some(&list[at]);
        }
        i += 1;
    }
    assert(entries.take(entries.len() as int) =~= entries);
    None
}

proof fn lemma_folders_keep_first(
    entries: Seq<(AccountId, Vec<MailFolder>)>,
    n: int,
    p: spec_fn(MailFolderView) -> bool,
)
    requires
        0 <= n <= entries.len(),
        first_where(all_folders(entries.take(n)), p) is Some,
    ensures
        first_where(all_folders(entries), p) == first_where(all_folders(entries.take(n)), p),
    decreases entries.len() - n,
{
    if n < entries.len() {
        assert(entries.take(n + 1).drop_last() =~= entries.take(n));
        lemma_first_of_two(all_folders(entries.take(n)), entries[n].1.deep_view(), p);
        lemma_folders_keep_first(entries, n + 1, p);
    } else {
        assert(entries.take(n) =~= entries);
    }
}

impl AviaryApp {
    /// What is suggested while `draft` stands in the search field and the address book
    /// finds `found` for it.
    pub open spec fn suggestions(self, draft: Seq<char>, found: Seq<ContactView>) -> MailSearchSuggestionsView {
        let query_empty = trimmed(draft).len() == 0;
        MailSearchSuggestionsView {
            query_empty,
            contacts: if query_empty {
                Seq::empty()
            } else {
                at_most(found, SEARCH_CONTACT_SUGGESTIONS as int)
            },
            history: at_most(self.mailbox.search.history.deep_view(), SEARCH_HISTORY_SUGGESTIONS as int),
        }
    }

    /// What is suggested while `draft` stands in the search field.
    pub fn mail_search_suggestions(&self, draft: &str, found: &Vec<Contact>) -> (suggestions: MailSearchSuggestions)
        ensures
            suggestions.deep_view() == self.suggestions(draft@, found.deep_view()),
    {
        let core = trim(draft);
        let query_empty = core.as_str().is_empty();
        let contacts = if query_empty {
            Vec::new()
        } else {
            first_items(found, SEARCH_CONTACT_SUGGESTIONS)
        };
        assert(query_empty ==> contacts.deep_view() =~= Seq::<ContactView>::empty());
        let history = first_items(&self.mailbox.search.history, SEARCH_HISTORY_SUGGESTIONS);
        MailSearchSuggestions { query_empty, contacts, history }
    }

    /// What the chosen suggestion searches for.
    pub fn selected_mail_search_query(&self, draft: &str, found: &Vec<Contact>) -> (query: Option<String>)
        ensures
            query.deep_view() == (match self.mailbox.search.menu_selection {
                Some(choice) if self.mailbox.search.menu_open => self.suggestions(draft@, found.deep_view()).query(
                    choice as int,
                ),
                _ => None,
            }),
    {
        if !self.mailbox.search.menu_open {
            return None;
        }
        match self.mailbox.search.menu_selection {
            Some(choice) => self.mail_search_suggestions(draft, found).query_at(choice),
            None => None,
        }
    }

    /// Moves the choice among the suggestions; reports whether there was anything to do.
    pub fn move_mail_search_selection(&mut self, down: bool, draft: &str, found: &Vec<Contact>) -> (moved: bool)
        ensures
            moved == (old(self).mailbox.search.menu_open && old(self).suggestions(draft@, found.deep_view()).count() > 0),
            *final(self) == (if moved {
                AviaryApp {
                    mailbox: MailboxState {
                        search: SearchState {
                            menu_selection: Some(
                                moved_choice(
                                    old(self).mailbox.search.menu_selection,
                                    down,
                                    old(self).suggestions(draft@, found.deep_view()).count(),
                                ),
                            ),
                            ..old(self).mailbox.search
                        },
                        ..old(self).mailbox
                    },
                    ..*old(self)
                }
            } else {
                *old(self)
            }),
    {
        if !self.mailbox.search.menu_open {
            return false;
        }
        let suggestions = self.mail_search_suggestions(draft, found);
        let len: usize = suggestions.len();
        if len == 0 {
            return false;
        }
        let choice: usize = match self.mailbox.search.menu_selection {
            None => if down {
                0
            } else {
                len - 1
            },
            Some(index) => {
                let base: usize = index % len;
                proof {
                    lemma_wrapped(index as int, len as int);
                }
                if down {
                    (base + 1) % len
                } else {
                    (base + len - 1) % len
                }
            },
        };
        self.mailbox.search.menu_selection = Some(choice);
        true
    }

    /// Name of the folder that the narrow reach stays in.
    pub open spec fn search_folder(self) -> LabelView {
        match self.mailbox.selected_folder_id {
            Some(id) => match first_where(all_folders(self.mailbox.folders_by_account.entries@), folder_named(id@)) {
                Some(folder) => folder_label(folder),
                None => LabelView::Key("folder-inbox"@),
            },
            None => LabelView::Key("folder-inbox"@),
        }
    }

    fn search_folder_label(&self) -> (label: Label)
        ensures
            label.deep_view() == self.search_folder(),
    {
        if let Some(id) = &self.mailbox.selected_folder_id {
            if let Some(folder) = find_folder(&self.mailbox.folders_by_account, id) {
                return folder_display_label(folder);
            }
        }
        Label::Key("folder-inbox")
    }

    /// Earlier searches, and the choices of order and reach below them.
    pub open spec fn history_section(self, suggestions: MailSearchSuggestionsView) -> SearchHistoryView {
        SearchHistoryView {
            rows: history_rows(suggestions, self.mailbox.search.menu_selection),
            clearable: suggestions.history.len() > 0,
            sorts: seq![
                (MailSearchSort::Relevance, self.mailbox.search.sort == MailSearchSort::Relevance),
                (MailSearchSort::Date, self.mailbox.search.sort == MailSearchSort::Date),
            ],
            scopes: seq![
                (MailSearchScope::Everywhere, self.mailbox.search.scope == MailSearchScope::Everywhere),
                (MailSearchScope::Folder, self.mailbox.search.scope == MailSearchScope::Folder),
            ],
            folder: self.search_folder(),
        }
    }

    /// Earlier searches, and the choices of order and reach below them.
    pub fn search_history(&self, suggestions: &MailSearchSuggestions) -> (section: SearchHistory)
        ensures
            section.deep_view() == self.history_section(suggestions.deep_view()),
    {
        let sort = self.mailbox.search.sort;
        let scope = self.mailbox.search.scope;
        let mut sorts: Vec<(MailSearchSort, bool)> = Vec::new();
        sorts.push((MailSearchSort::Relevance, sort == MailSearchSort::Relevance));
        sorts.push((MailSearchSort::Date, sort == MailSearchSort::Date));
        let mut scopes: Vec<(MailSearchScope, bool)> = Vec::new();
        scopes.push((MailSearchScope::Everywhere, scope == MailSearchScope::Everywhere));
        scopes.push((MailSearchScope::Folder, scope == MailSearchScope::Folder));
        let section = SearchHistory {
            rows: search_history_rows(suggestions, self.mailbox.search.menu_selection),
            clearable: suggestions.history.len() > 0,
            sorts,
            scopes,
            folder: self.search_folder_label(),
        };
        assert(section.deep_view() =~= self.history_section(suggestions.deep_view()));
        section
    }

    /// The panel under the search field, while it is open.
    pub fn mail_search_panel(&self, draft: &str, found: &Vec<Contact>) -> (panel: Option<SearchPanel>)
        ensures
            panel.deep_view() == (if self.mailbox.search.menu_open {
                let suggestions = self.suggestions(draft@, found.deep_view());
                Some(
                    SearchPanelView {
                        contacts: contact_section(suggestions, self.mailbox.search.menu_selection),
                        history: self.history_section(suggestions),
                        operator_hints: suggestions.query_empty,
                    },
                )
            } else {
                None
            }),
    {
        if !self.mailbox.search.menu_open {
            return None;
        }
        let suggestions = self.mail_search_suggestions(draft, found);
        Some(
            SearchPanel {
                contacts: search_contacts(&suggestions, self.mailbox.search.menu_selection),
                history: self.search_history(&suggestions),
                operator_hints: suggestions.query_empty,
            },
        )
    }

    /// Forgets all earlier searches.
    pub fn clear_search_history(&mut self)
        ensures
            final(self).mailbox.search.history.deep_view() == Seq::<Seq<char>>::empty(),
            *final(self) == (AviaryApp {
                mailbox: MailboxState {
                    search: SearchState {
                        history: final(self).mailbox.search.history,
                        menu_selection: None,
                        ..old(self).mailbox.search
                    },
                    ..old(self).mailbox
                },
                ..*old(self)
            }),
    {
        self.mailbox.search.history = Vec::new();
        self.mailbox.search.menu_selection = None;
        assert(self.mailbox.search.history.deep_view() =~= Seq::<Seq<char>>::empty());
    }
}

proof fn lemma_wrapped(index: int, len: int)
    requires
        index >= 0,
        len > 0,
    ensures
        0 <= index % len < len,
        (index % len + 1) % len == (index + 1) % len,
        (index % len + len - 1) % len == (index + len - 1) % len,
{
    vstd::arithmetic::div_mod::lemma_mod_bound(index, len);
    vstd::arithmetic::div_mod::lemma_add_mod_noop(index, 1, len);
    vstd::arithmetic::div_mod::lemma_add_mod_noop(index % len, 1, len);
    vstd::arithmetic::div_mod::lemma_mod_twice(index, len);
    vstd::arithmetic::div_mod::lemma_add_mod_noop(index, len - 1, len);
    vstd::arithmetic::div_mod::lemma_add_mod_noop(index % len, len - 1, len);
}

/// The choice stays among the suggestions, and a move up takes back a move down.
pub proof fn law_choices_wrap(index: usize, len: int)
    requires
        0 < len <= usize::MAX,
        index < len,
    ensures
        moved_choice(Some(index), true, len) < len,
        moved_choice(Some(index), false, len) < len,
        moved_choice(Some(moved_choice(Some(index), true, len)), false, len) == index,
        moved_choice(Some(moved_choice(Some(index), false, len)), true, len) == index,
        moved_choice(None, true, len) == 0,
        moved_choice(None, false, len) == len - 1,
{
    let i = index as int;
    if i + 1 < len {
        vstd::arithmetic::div_mod::lemma_small_mod((i + 1) as nat, len as nat);
    } else {
        vstd::arithmetic::div_mod::lemma_mod_self_0(len);
    }
    if i > 0 {
        vstd::arithmetic::div_mod::lemma_mod_add_multiples_vanish(i - 1, len);
        vstd::arithmetic::div_mod::lemma_small_mod((i - 1) as nat, len as nat);
    } else {
        vstd::arithmetic::div_mod::lemma_small_mod((len - 1) as nat, len as nat);
    }
    let down = moved_choice(Some(index), true, len) as int;
    if down > 0 {
        vstd::arithmetic::div_mod::lemma_mod_add_multiples_vanish(down - 1, len);
        vstd::arithmetic::div_mod::lemma_small_mod((down - 1) as nat, len as nat);
    } else {
        vstd::arithmetic::div_mod::lemma_small_mod((len - 1) as nat, len as nat);
    }
    let up = moved_choice(Some(index), false, len) as int;
    if up + 1 < len {
        vstd::arithmetic::div_mod::lemma_small_mod((up + 1) as nat, len as nat);
    } else {
        vstd::arithmetic::div_mod::lemma_mod_self_0(len);
    }
}

/// Every suggestion searches for something, and nothing beyond them does; there are at
/// most eight.
pub proof fn law_suggestions_answer(app: AviaryApp, draft: Seq<char>, found: Seq<ContactView>, index: int)
    ensures
        app.suggestions(draft, found).count() <= SEARCH_CONTACT_SUGGESTIONS + SEARCH_HISTORY_SUGGESTIONS,
        app.suggestions(draft, found).query(index) is Some <==> 0 <= index < app.suggestions(draft, found).count(),
{
}

} // verus!
