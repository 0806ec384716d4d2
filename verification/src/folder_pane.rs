//! The folder pane: favorites, the folder tree of each account, and what can be done there.
use crate::account_events::{account_rank, order_accounts};
use crate::app::{account_named, holds_account, is_account, is_text};
use crate::folder_events::{account_set, folder_named, folders_of};
use crate::folder_tree::{
    folder_display_label, folder_icon, folder_label, folder_tree, tree_rows, FolderTreeRowView, Label, LabelView,
};
use crate::list_entries::holds_text;
use crate::lists::{any_where, first_where, lemma_first_index, position_where, stable_sort};
use crate::model::{clone_list, Account, AccountId, AccountView, MailFolder, MailFolderView};
use crate::navigation::flipped;
use crate::settings::{other_text, remove_text, AccountSettingsView, GlobalSettings};
use crate::state::{AviaryApp, Effect, EffectView, ViewerTab, TagsState};
use crate::text::{has_prefix, starts_with, trim, trimmed};
use vstd::prelude::*;

verus! {

/// A line of the folder pane. It names what it shows; the row reads the rest itself.
#[derive(Debug, PartialEq, Eq)]
pub enum FolderEntry {
    FavoritesHeader { count: usize, collapsed: bool },
    Favorite { account_id: AccountId, folder_id: String },
    /// Separated from what stands above by a rule, which adds to its height.
    Account { account_id: AccountId, separated: bool, collapsed: bool },
    Folder { account_id: AccountId, folder_id: String, depth: usize, has_children: bool, collapsed: bool },
}

/// Mathematical form of [`FolderEntry`].
#[verifier::ext_equal]
pub enum FolderEntryView {
    FavoritesHeader { count: usize, collapsed: bool },
    Favorite { account_id: Seq<char>, folder_id: Seq<char> },
    Account { account_id: Seq<char>, separated: bool, collapsed: bool },
    Folder { account_id: Seq<char>, folder_id: Seq<char>, depth: usize, has_children: bool, collapsed: bool },
}

impl DeepView for FolderEntry {
    type V = FolderEntryView;

    open spec fn deep_view(&self) -> FolderEntryView {
        match self {
            FolderEntry::FavoritesHeader { count, collapsed } => FolderEntryView::FavoritesHeader { count: *count, collapsed: *collapsed },
            FolderEntry::Favorite { account_id, folder_id } => FolderEntryView::Favorite { account_id: account_id.deep_view(), folder_id: folder_id.deep_view() },
            FolderEntry::Account { account_id, separated, collapsed } => FolderEntryView::Account { account_id: account_id.deep_view(), separated: *separated, collapsed: *collapsed },
            FolderEntry::Folder { account_id, folder_id, depth, has_children, collapsed } => FolderEntryView::Folder { account_id: account_id.deep_view(), folder_id: folder_id.deep_view(), depth: *depth, has_children: *has_children, collapsed: *collapsed },
        }
    }
}

/// Everything about an entry that changes its measured height.
#[derive(Debug, Clone, Copy, PartialEq, Eq, Structural)]
pub enum FolderEntryVariant {
    FavoritesHeader,
    Row { has_children: bool },
    Account { separated: bool },
}

/// Entries of the menu of a folder.
#[derive(Debug, Clone, Copy, PartialEq, Eq, Structural)]
pub enum FolderCommand {
    AddFavorite,
    RemoveFavorite,
    NewChild,
    Rename,
    Delete,
}

impl DeepView for FolderCommand {
    type V = FolderCommand;

    open spec fn deep_view(&self) -> FolderCommand {
        *self
    }
}

/// What stands in the right part of the mail view.
#[derive(Debug, Clone, Copy, PartialEq, Eq, Structural)]
pub enum ReadingLayout {
    /// The composer alone.
    ReaderAlone,
    /// The reader over the history of the sender.
    WithHistory,
    /// The reader over the bar that unfolds the history.
    WithHistoryBar,
}

/// A row of a folder.
#[derive(Debug, PartialEq, Eq)]
pub struct FolderRow {
    pub label: Label,
    /// Name of the account, beside the label of a favorite.
    pub owner: Option<String>,
    pub icon: &'static str,
    pub depth: usize,
    /// For a folder with others below it: whether these are hidden.
    pub branch: Option<bool>,
    pub selected: bool,
    pub pinned: bool,
    pub unread: Option<u32>,
    /// The entries of its menu, each with whether it can be chosen.
    pub menu: Vec<(FolderCommand, bool)>,
    /// The folder that a click selects: none for the inbox, which an account shows anyway.
    pub target: Option<String>,
}

/// Mathematical form of [`FolderRow`].
#[verifier::ext_equal]
pub struct FolderRowView {
    pub label: LabelView,
    pub owner: Option<Seq<char>>,
    pub icon: Seq<char>,
    pub depth: usize,
    pub branch: Option<bool>,
    pub selected: bool,
    pub pinned: bool,
    pub unread: Option<u32>,
    pub menu: Seq<(FolderCommand, bool)>,
    pub target: Option<Seq<char>>,
}

impl DeepView for FolderRow {
    type V = FolderRowView;

    open spec fn deep_view(&self) -> FolderRowView {
        FolderRowView {
            label: self.label.deep_view(),
            owner: self.owner.deep_view(),
            icon: self.icon.deep_view(),
            depth: self.depth,
            branch: self.branch,
            selected: self.selected,
            pinned: self.pinned,
            unread: self.unread,
            menu: self.menu.deep_view(),
            target: self.target.deep_view(),
        }
    }
}

/// The header over the folders of an account.
#[derive(Debug, PartialEq, Eq)]
pub struct AccountHeader {
    pub label: String,
    pub email: String,
    pub color_override: Option<u32>,
    pub included: bool,
    pub separated: bool,
    pub collapsed: bool,
    pub can_create_folder: bool,
}

/// Mathematical form of [`AccountHeader`].
#[verifier::ext_equal]
pub struct AccountHeaderView {
    pub label: Seq<char>,
    pub email: Seq<char>,
    pub color_override: Option<u32>,
    pub included: bool,
    pub separated: bool,
    pub collapsed: bool,
    pub can_create_folder: bool,
}

impl DeepView for AccountHeader {
    type V = AccountHeaderView;

    open spec fn deep_view(&self) -> AccountHeaderView {
        AccountHeaderView {
            label: self.label.deep_view(),
            email: self.email.deep_view(),
            color_override: self.color_override,
            included: self.included,
            separated: self.separated,
            collapsed: self.collapsed,
            can_create_folder: self.can_create_folder,
        }
    }
}


/// Whether a folder is the inbox.
pub open spec fn is_inbox(folder: MailFolderView) -> bool {
    folder.well_known_name == Some("inbox"@)
}

/// Whether folders can be made below a folder.
pub open spec fn takes_children(folder: MailFolderView) -> bool {
    match folder.well_known_name {
        Some(name) => !has_prefix(name, "category-"@),
        None => true,
    }
}

/// The menu of a folder. Folders that the provider knows by a name of its own can be
/// neither renamed nor deleted.
pub open spec fn folder_menu(folder: MailFolderView, pinned: bool, offline: bool) -> Seq<(FolderCommand, bool)> {
    seq![
        (
            if pinned {
                FolderCommand::RemoveFavorite
            } else {
                FolderCommand::AddFavorite
            },
            true,
        ),
        (FolderCommand::NewChild, !offline && takes_children(folder)),
    ] + (if folder.well_known_name is None {
        seq![(FolderCommand::Rename, !offline), (FolderCommand::Delete, !offline)]
    } else {
        Seq::empty()
    })
}

/// The folder that a click selects.
pub open spec fn click_target(folder: MailFolderView) -> Option<Seq<char>> {
    if is_inbox(folder) {
        None
    } else {
        Some(folder.id)
    }
}

fn names_inbox(folder: &MailFolder) -> (yes: bool)
    ensures
        yes == is_inbox(folder.deep_view()),
{
    match &folder.well_known_name {
        Some(name) => crate::text::text_eq(name.as_str(), "inbox"),
        None => false,
    }
}

fn collect_menu(folder: &MailFolder, pinned: bool, offline: bool) -> (menu: Vec<(FolderCommand, bool)>)
    ensures
        menu.deep_view() == folder_menu(folder.deep_view(), pinned, offline),
{
    let takes = match &folder.well_known_name {
        Some(name) => !starts_with(name.as_str(), "category-"),
        None => true,
    };
    let mut menu: Vec<(FolderCommand, bool)> = Vec::new();
    let favorite = if pinned {
        FolderCommand::RemoveFavorite
    } else {
        FolderCommand::AddFavorite
    };
    menu.push((favorite, true));
    menu.push((FolderCommand::NewChild, !offline && takes));
    if folder.well_known_name.is_none() {
        menu.push((FolderCommand::Rename, !offline));
        menu.push((FolderCommand::Delete, !offline));
    }
    assert(menu.deep_view() =~= folder_menu(folder.deep_view(), pinned, offline));
    menu
}

impl FolderEntryView {
    /// Everything about an entry that changes its measured height.
    pub open spec fn variant(self) -> FolderEntryVariant {
        match self {
            FolderEntryView::FavoritesHeader { .. } => FolderEntryVariant::FavoritesHeader,
            FolderEntryView::Favorite { .. } => FolderEntryVariant::Row { has_children: false },
            FolderEntryView::Account { separated, .. } => FolderEntryVariant::Account { separated },
            FolderEntryView::Folder { has_children, .. } => FolderEntryVariant::Row { has_children },
        }
    }
}

impl FolderEntry {
    /// Everything about an entry that changes its measured height.
    pub fn variant(&self) -> (variant: FolderEntryVariant)
        ensures
            variant == self.deep_view().variant(),
    {
        match self {
            FolderEntry::FavoritesHeader { .. } => FolderEntryVariant::FavoritesHeader,
            FolderEntry::Favorite { .. } => FolderEntryVariant::Row { has_children: false },
            FolderEntry::Account { separated, .. } => FolderEntryVariant::Account { separated: *separated },
            FolderEntry::Folder { has_children, .. } => FolderEntryVariant::Row { has_children: *has_children },
        }
    }

    /// Whether a gap stands above the entry.
    pub fn leading_gap(&self) -> (gap: bool)
        ensures
            gap == (match self.deep_view() {
                FolderEntryView::FavoritesHeader { .. } => true,
                FolderEntryView::Account { separated, .. } => separated,
                _ => false,
            }),
    {
        match self {
            FolderEntry::FavoritesHeader { .. } => true,
            FolderEntry::Account { separated, .. } => *separated,
            _ => false,
        }
    }
}

/// The favorites of an account: those of its pinned folders that it has.
pub open spec fn favorites_of(account_id: Seq<char>, pinned: Seq<Seq<char>>, folders: Seq<MailFolderView>) -> Seq<
    (Seq<char>, Seq<char>),
> {
    pinned.filter(|id: Seq<char>| folders.any(folder_named(id))).map_values(|id: Seq<char>| (account_id, id))
}

/// A folder of the tree as an entry.
pub open spec fn tree_entry(account_id: Seq<char>, expanded: Seq<Seq<char>>) -> spec_fn(FolderTreeRowView) -> FolderEntryView {
    |row: FolderTreeRowView|
        FolderEntryView::Folder {
            account_id,
            folder_id: row.folder.id,
            depth: row.depth,
            has_children: row.has_children,
            collapsed: !expanded.contains(row.folder.id),
        }
}

/// A favorite as an entry.
pub open spec fn favorite_entry() -> spec_fn((Seq<char>, Seq<char>)) -> FolderEntryView {
    |favorite: (Seq<char>, Seq<char>)| FolderEntryView::Favorite { account_id: favorite.0, folder_id: favorite.1 }
}

/// Nothing but the accounts that are hidden from the unified inbox differs.
#[verifier::opaque]
pub open spec fn same_but_hidden(before: GlobalSettings, after: GlobalSettings) -> bool {
    after == (GlobalSettings { unified_hidden_account_ids: after.unified_hidden_account_ids, ..before })
}

/// Nothing but the accounts whose folders are shown differs.
#[verifier::opaque]
pub open spec fn same_but_unfolded(before: GlobalSettings, after: GlobalSettings) -> bool {
    after == (GlobalSettings { expanded_folder_account_ids: after.expanded_folder_account_ids, ..before })
}

/// Nothing but whether favorites are hidden differs.
#[verifier::opaque]
pub open spec fn same_but_favorites(before: GlobalSettings, after: GlobalSettings) -> bool {
    after == (GlobalSettings { favorite_folders_collapsed: after.favorite_folders_collapsed, ..before })
}

/// A list with a text in it once, or without it.
pub open spec fn with_membership(texts: Seq<Seq<char>>, text: Seq<char>, member: bool) -> Seq<Seq<char>> {
    if !member {
        texts.filter(other_text(text))
    } else if texts.contains(text) {
        texts
    } else {
        texts.push(text)
    }
}

fn set_membership(texts: &mut Vec<String>, text: &String, member: bool)
    ensures
        final(texts).deep_view() == with_membership(old(texts).deep_view(), text@, member),
{
    if !member {
        remove_text(texts, text);
    } else if !holds_text(texts, text) {
        let ghost before = texts.deep_view();
        texts.push(text.clone());
        assert(texts.deep_view() =~= before.push(text@));
    }
}

fn flip_membership(texts: &mut Vec<String>, text: &String)
    ensures
        final(texts).deep_view() == flipped(old(texts).deep_view(), text@, other_text(text@)),
{
    if holds_text(texts, text) {
        remove_text(texts, text);
    } else {
        let ghost before = texts.deep_view();
        texts.push(text.clone());
        assert(texts.deep_view() =~= before.push(text@));
    }
}

fn set_hidden(global: &mut GlobalSettings, id: &String, hidden: bool)
    ensures
        final(global).unified_hidden_account_ids.deep_view() == with_membership(
            old(global).unified_hidden_account_ids.deep_view(),
            id@,
            hidden,
        ),
        same_but_hidden(*old(global), *final(global)),
{
    reveal(same_but_hidden);
    set_membership(&mut global.unified_hidden_account_ids, id, hidden);
}

fn flip_unfolded(global: &mut GlobalSettings, id: &String)
    ensures
        final(global).expanded_folder_account_ids.deep_view() == flipped(
            old(global).expanded_folder_account_ids.deep_view(),
            id@,
            other_text(id@),
        ),
        same_but_unfolded(*old(global), *final(global)),
{
    reveal(same_but_unfolded);
    flip_membership(&mut global.expanded_folder_account_ids, id);
}

fn flip_favorites(global: &mut GlobalSettings)
    ensures
        final(global).favorite_folders_collapsed == !old(global).favorite_folders_collapsed,
        same_but_favorites(*old(global), *final(global)),
{
    reveal(same_but_favorites);
    global.favorite_folders_collapsed = !global.favorite_folders_collapsed;
}

impl AviaryApp {
    /// The accounts in the order of the settings.
    pub open spec fn ordered(self) -> Seq<AccountView> {
        stable_sort(self.accounts.deep_view(), account_rank(self.settings.global.account_order.deep_view()))
    }

    /// The accounts in the order of the settings.
    pub fn ordered_accounts(&self) -> (accounts: Vec<Account>)
        ensures
            accounts.deep_view() == self.ordered(),
    {
        order_accounts(clone_list(&self.accounts), &self.settings.global.account_order)
    }

    /// The favorites of `accounts`.
    pub open spec fn favorites_among(self, accounts: Seq<AccountView>) -> Seq<(Seq<char>, Seq<char>)>
        decreases accounts.len(),
    {
        if accounts.len() == 0 {
            Seq::empty()
        } else {
            let id = accounts.last().id;
            self.favorites_among(accounts.drop_last()) + favorites_of(
                id,
                self.settings.account_view(id).pinned_folder_ids,
                folders_of(self.mailbox.folders_by_account, id),
            )
        }
    }

    fn push_favorites(&self, favorites: &mut Vec<(AccountId, String)>, account_id: &AccountId)
        ensures
            final(favorites).deep_view() == old(favorites).deep_view() + favorites_of(
                account_id.0@,
                self.settings.account_view(account_id.0@).pinned_folder_ids,
                folders_of(self.mailbox.folders_by_account, account_id.0@),
            ),
    {
        let ghost start = favorites.deep_view();
        let ghost id = account_id.0@;
        let ghost folders_seen = folders_of(self.mailbox.folders_by_account, id);
        let ghost test = |folder_id: Seq<char>| folders_seen.any(folder_named(folder_id));
        let ghost pair = |folder_id: Seq<char>| (id, folder_id);
        let account = self.settings.account_or_default(Some(account_id));
        let pinned = &account.pinned_folder_ids;
        let ghost all = pinned.deep_view();
        match self.mailbox.folders_by_account.get(account_id) {
            Some(folders) => {
                let mut i: usize = 0;
                proof {
                    reveal(Seq::filter);
                    assert(favorites.deep_view() =~= start + all.take(0).filter(test).map_values(pair));
                }
                while i < pinned.len()
                    invariant
                        i <= pinned.len(),
                        all == pinned.deep_view(),
                        id == account_id.0@,
                        folders_seen == folders.deep_view(),
                        test == (|folder_id: Seq<char>| folders_seen.any(folder_named(folder_id))),
                        pair == (|folder_id: Seq<char>| (id, folder_id)),
                        favorites.deep_view() == start + all.take(i as int).filter(test).map_values(pair),
                    decreases pinned.len() - i,
                {
                    let folder_id = &pinned[i];
                    let ghost before = favorites.deep_view();
                    proof {
                        reveal(Seq::filter);
                        assert(all[i as int] == folder_id.deep_view());
                        assert(all.take(i + 1).drop_last() =~= all.take(i as int));
                        let front = all.take(i as int).filter(test);
                        assert(front.push(all[i as int]).map_values(pair) =~= front.map_values(pair).push(
                            pair(all[i as int]),
                        ));
                    }
                    let found = any_where(
                        folders,
                        |folder: &MailFolder| -> (same: bool)
                            ensures
                                same == (folder.deep_view().id == folder_id@)
                            { folder.id == *folder_id },
                        Ghost(folder_named(folder_id@)),
                    );
                    if found {
                        favorites.push((account_id.clone(), folder_id.clone()));
                        assert(favorites.deep_view() =~= before.push(pair(all[i as int])));
                        assert(favorites.deep_view() =~= start + all.take(i + 1).filter(test).map_values(pair));
                    }
                    i += 1;
                }
                assert(all.take(all.len() as int) =~= all);
            },
            None => {
                proof {
                    lemma_no_favorites(id, all);
                }
                assert(favorites.deep_view() =~= start + Seq::<(Seq<char>, Seq<char>)>::empty());
            },
        }
    }

    /// Pinned folders, each with its account.
    pub fn favorite_folders(&self) -> (favorites: Vec<(AccountId, String)>)
        ensures
            favorites.deep_view() == self.favorites_among(self.ordered()),
    {
        let accounts = self.ordered_accounts();
        let ghost all = accounts.deep_view();
        let mut favorites: Vec<(AccountId, String)> = Vec::new();
        let mut i: usize = 0;
        assert(favorites.deep_view() =~= self.favorites_among(all.take(0)));
        while i < accounts.len()
            invariant
                i <= accounts.len(),
                all == accounts.deep_view(),
                favorites.deep_view() == self.favorites_among(all.take(i as int)),
            decreases accounts.len() - i,
        {
            assert(all[i as int] == accounts[i as int].deep_view());
            assert(all.take(i + 1).drop_last() =~= all.take(i as int));
            self.push_favorites(&mut favorites, &accounts[i].id);
            i += 1;
        }
        assert(all.take(all.len() as int) =~= all);
        favorites
    }

    /// Whether the folders of an account are hidden.
    pub open spec fn account_folded(self, id: Seq<char>) -> bool {
        !self.settings.global.expanded_folder_account_ids.deep_view().contains(id)
    }

    /// The entries of an account.
    pub open spec fn account_entries(self, account_id: Seq<char>, separated: bool) -> Seq<FolderEntryView> {
        let expanded = self.settings.account_view(account_id).expanded_folder_ids;
        seq![FolderEntryView::Account { account_id, separated, collapsed: self.account_folded(account_id) }] + (if
        self.account_folded(account_id) || !self.mailbox.folders_by_account@.contains_key(account_id) {
            Seq::empty()
        } else {
            tree_rows(self.mailbox.folders_by_account@[account_id].deep_view(), expanded).map_values(
                tree_entry(account_id, expanded),
            )
        })
    }

    /// The entries of `accounts`; a rule stands above each but the first of the pane.
    pub open spec fn entries_of_accounts(self, accounts: Seq<AccountView>, favorites: bool) -> Seq<FolderEntryView>
        decreases accounts.len(),
    {
        if accounts.len() == 0 {
            Seq::empty()
        } else {
            self.entries_of_accounts(accounts.drop_last(), favorites) + self.account_entries(
                accounts.last().id,
                favorites || accounts.len() > 1,
            )
        }
    }

    /// The favorites as entries.
    pub open spec fn favorite_entries(self) -> Seq<FolderEntryView> {
        let favorites = self.favorites_among(self.ordered());
        let collapsed = self.settings.global.favorite_folders_collapsed;
        if favorites.len() == 0 {
            Seq::empty()
        } else {
            seq![FolderEntryView::FavoritesHeader { count: favorites.len() as usize, collapsed }] + (if collapsed {
                Seq::empty()
            } else {
                favorites.map_values(favorite_entry())
            })
        }
    }

    /// The entries of the folder pane.
    pub open spec fn folder_entries(self) -> Seq<FolderEntryView> {
        self.favorite_entries() + self.entries_of_accounts(
            self.ordered(),
            self.favorites_among(self.ordered()).len() > 0,
        )
    }

    fn push_favorite_entries(&self, entries: &mut Vec<FolderEntry>, favorites: &Vec<(AccountId, String)>)
        requires
            favorites.deep_view() == self.favorites_among(self.ordered()),
        ensures
            final(entries).deep_view() == old(entries).deep_view() + self.favorite_entries(),
    {
        let ghost start = entries.deep_view();
        let ghost all = favorites.deep_view();
        assert(all.len() == favorites.len());
        if favorites.len() == 0 {
            assert(entries.deep_view() =~= start + self.favorite_entries());
            return;
        }
        let collapsed = self.settings.global.favorite_folders_collapsed;
        entries.push(FolderEntry::FavoritesHeader { count: favorites.len(), collapsed });
        let ghost head = entries.deep_view();
        assert(head =~= start + seq![FolderEntryView::FavoritesHeader { count: all.len() as usize, collapsed }]);
        if collapsed {
            assert(entries.deep_view() =~= start + self.favorite_entries());
            return;
        }
        let ghost shown = all.map_values(favorite_entry());
        let mut i: usize = 0;
        assert(entries.deep_view() =~= head + shown.take(0));
        while i < favorites.len()
            invariant
                i <= favorites.len(),
                all == favorites.deep_view(),
                all.len() == favorites.len(),
                shown == all.map_values(favorite_entry()),
                entries.deep_view() == head + shown.take(i as int),
            decreases favorites.len() - i,
        {
            let ghost before = entries.deep_view();
            assert(all[i as int] == favorites[i as int].deep_view());
            entries.push(
                FolderEntry::Favorite { account_id: favorites[i].0.clone(), folder_id: favorites[i].1.clone() },
            );
            assert(entries.deep_view() =~= before.push(shown[i as int]));
            assert(shown.take(i + 1) =~= shown.take(i as int).push(shown[i as int]));
            assert(entries.deep_view() =~= head + shown.take(i + 1));
            i += 1;
        }
        assert(shown.take(shown.len() as int) =~= shown);
        assert(entries.deep_view() =~= start + self.favorite_entries());
    }

    fn push_account_entries(&self, entries: &mut Vec<FolderEntry>, account_id: &AccountId, separated: bool)
        ensures
            final(entries).deep_view() == old(entries).deep_view() + self.account_entries(account_id.0@, separated),
    {
        let ghost start = entries.deep_view();
        let ghost id = account_id.0@;
        let collapsed = !holds_text(&self.settings.global.expanded_folder_account_ids, &account_id.0);
        entries.push(FolderEntry::Account { account_id: account_id.clone(), separated, collapsed });
        let ghost head = entries.deep_view();
        assert(head =~= start + seq![FolderEntryView::Account { account_id: id, separated, collapsed }]);
        if collapsed {
            assert(entries.deep_view() =~= start + self.account_entries(id, separated));
            return;
        }
        if let Some(folders) = self.mailbox.folders_by_account.get(account_id) {
            let account = self.settings.account_or_default(Some(account_id));
            let expanded = &account.expanded_folder_ids;
            let rows = folder_tree(folders, expanded);
            let ghost all = rows.deep_view();
            let ghost shown = all.map_values(tree_entry(id, expanded.deep_view()));
            let mut i: usize = 0;
            assert(entries.deep_view() =~= head + shown.take(0));
            while i < rows.len()
                invariant
                    i <= rows.len(),
                    id == account_id.0@,
                    all == rows.deep_view(),
                    shown == all.map_values(tree_entry(id, expanded.deep_view())),
                    entries.deep_view() == head + shown.take(i as int),
                decreases rows.len() - i,
            {
                let ghost before = entries.deep_view();
                let row = &rows[i];
                assert(all[i as int] == row.deep_view());
                entries.push(
                    FolderEntry::Folder {
                        account_id: account_id.clone(),
                        folder_id: row.folder.id.clone(),
                        depth: row.depth,
                        has_children: row.has_children,
                        collapsed: !holds_text(expanded, &row.folder.id),
                    },
                );
                assert(entries.deep_view() =~= before.push(shown[i as int]));
                assert(shown.take(i + 1) =~= shown.take(i as int).push(shown[i as int]));
                assert(entries.deep_view() =~= head + shown.take(i + 1));
                i += 1;
            }
            assert(shown.take(shown.len() as int) =~= shown);
        }
        assert(entries.deep_view() =~= start + self.account_entries(id, separated));
    }

    /// The entries of the folder pane: favorites, and then the folder tree of each account.
    pub fn build_folder_entries(&self) -> (entries: Vec<FolderEntry>)
        ensures
            entries.deep_view() == self.folder_entries(),
    {
        let favorites = self.favorite_folders();
        let has_favorites = favorites.len() > 0;
        assert(favorites.deep_view().len() == favorites.len());
        let mut entries: Vec<FolderEntry> = Vec::new();
        self.push_favorite_entries(&mut entries, &favorites);
        let ghost head = entries.deep_view();
        assert(head =~= self.favorite_entries());
        let accounts = self.ordered_accounts();
        let ghost all = accounts.deep_view();
        let mut i: usize = 0;
        assert(entries.deep_view() =~= head + self.entries_of_accounts(all.take(0), has_favorites));
        while i < accounts.len()
            invariant
                i <= accounts.len(),
                all == accounts.deep_view(),
                entries.deep_view() == head + self.entries_of_accounts(all.take(i as int), has_favorites),
            decreases accounts.len() - i,
        {
            assert(all[i as int] == accounts[i as int].deep_view());
            assert(all.take(i + 1).drop_last() =~= all.take(i as int));
            self.push_account_entries(&mut entries, &accounts[i].id, has_favorites || i > 0);
            assert(entries.deep_view() =~= head + self.entries_of_accounts(all.take(i + 1), has_favorites));
            i += 1;
        }
        assert(all.take(all.len() as int) =~= all);
        entries
    }

    /// A folder of an account.
    pub open spec fn folder_of(self, account_id: Seq<char>, folder_id: Seq<char>) -> Option<MailFolderView> {
        first_where(folders_of(self.mailbox.folders_by_account, account_id), folder_named(folder_id))
    }

    /// A folder of an account.
    pub fn folder_by_id(&self, account_id: &AccountId, folder_id: &String) -> (folder: Option<&MailFolder>)
        ensures
            folder.deep_view() == self.folder_of(account_id.0@, folder_id@),
    {
        let ghost all = folders_of(self.mailbox.folders_by_account, account_id.0@);
        proof {
            lemma_first_index(all, folder_named(folder_id@));
        }
        match self.mailbox.folders_by_account.get(account_id) {
            Some(folders) => {
                let found = position_where(
                    folders,
                    |folder: &MailFolder| -> (same: bool)
                        ensures
                            same == (folder.deep_view().id == folder_id@)
                        { folder.id == *folder_id },
                    Ghost(folder_named(folder_id@)),
                );
                match found {
                    Some(i) => {
                        assert(all[i as int] == folders[i as int].deep_view());
                        Some(&folders[i])
                    },
                    None => None,
                }
            },
            None => None,
        }
    }

    /// Whether a folder is the one that the list shows. The inbox is where no folder is
    /// selected.
    pub open spec fn folder_selected(self, account_id: Seq<char>, folder: MailFolderView) -> bool {
        let selected = self.mailbox.selected_folder_id.deep_view();
        &&& self.mailbox.unified_selected_account.deep_view() == Some(account_id)
        &&& selected == Some(folder.id) || (is_inbox(folder) && selected is None)
    }

    /// Whether a folder is the one that the list shows.
    pub fn folder_is_selected(&self, account_id: &AccountId, folder: &MailFolder) -> (yes: bool)
        ensures
            yes == self.folder_selected(account_id.0@, folder.deep_view()),
    {
        is_account(&self.mailbox.unified_selected_account, account_id) && (is_text(
            &self.mailbox.selected_folder_id,
            &folder.id,
        ) || (names_inbox(folder) && self.mailbox.selected_folder_id.is_none()))
    }

    /// A row of a folder.
    pub open spec fn folder_row_of(
        self,
        account_id: Seq<char>,
        folder: MailFolderView,
        owner: Option<Seq<char>>,
        depth: usize,
        has_children: bool,
        collapsed: bool,
    ) -> FolderRowView {
        let pinned = self.settings.account_view(account_id).pinned_folder_ids.contains(folder.id);
        FolderRowView {
            label: folder_label(folder),
            owner,
            icon: crate::folder_tree::icon_of(folder),
            depth,
            branch: if has_children {
                Some(collapsed)
            } else {
                None
            },
            selected: self.folder_selected(account_id, folder),
            pinned,
            unread: if folder.unread_item_count > 0 {
                Some(folder.unread_item_count)
            } else {
                None
            },
            menu: folder_menu(folder, pinned, self.offline_accounts.deep_view().contains(account_id)),
            target: click_target(folder),
        }
    }

    /// A row of a folder.
    pub fn folder_row(
        &self,
        account_id: &AccountId,
        folder: &MailFolder,
        owner: Option<String>,
        depth: usize,
        has_children: bool,
        collapsed: bool,
    ) -> (row: FolderRow)
        ensures
            row.deep_view() == self.folder_row_of(
                account_id.0@,
                folder.deep_view(),
                owner.deep_view(),
                depth,
                has_children,
                collapsed,
            ),
    {
        let offline = holds_account(&self.offline_accounts, account_id);
        let account = self.settings.account_or_default(Some(account_id));
        let pinned = holds_text(&account.pinned_folder_ids, &folder.id);
        let unread = if folder.unread_item_count > 0 {
            Some(folder.unread_item_count)
        } else {
            None
        };
        let branch = if has_children {
            Some(collapsed)
        } else {
            None
        };
        let target = if names_inbox(folder) {
            None
        } else {
            Some(folder.id.clone())
        };
        FolderRow {
            label: folder_display_label(folder),
            owner,
            icon: folder_icon(folder),
            depth,
            branch,
            selected: self.folder_is_selected(account_id, folder),
            pinned,
            unread,
            menu: collect_menu(folder, pinned, offline),
            target,
        }
    }

    /// The row of a favorite: nothing where its account or folder is gone.
    pub fn favorite_row(&self, account_id: &AccountId, folder_id: &String) -> (row: Option<FolderRow>)
        ensures
            row.deep_view() == (match (
                first_where(self.accounts.deep_view(), account_named(account_id.0@)),
                self.folder_of(account_id.0@, folder_id@),
            ) {
                (Some(account), Some(folder)) => Some(
                    self.folder_row_of(account_id.0@, folder, Some(self.title_of(account)), 0, false, false),
                ),
                _ => None,
            }),
    {
        match (self.account(account_id), self.folder_by_id(account_id, folder_id)) {
            (Some(account), Some(folder)) => {
                let label = self.account_label(account);
                Some(self.folder_row(account_id, folder, Some(label), 0, false, false))
            },
            _ => None,
        }
    }

    /// The row of a folder in the tree of its account: nothing where it is gone.
    pub fn folder_tree_row(
        &self,
        account_id: &AccountId,
        folder_id: &String,
        depth: usize,
        has_children: bool,
        collapsed: bool,
    ) -> (row: Option<FolderRow>)
        ensures
            row.deep_view() == (match self.folder_of(account_id.0@, folder_id@) {
                Some(folder) => Some(
                    self.folder_row_of(account_id.0@, folder, None, depth, has_children, collapsed),
                ),
                None => None,
            }),
    {
        match self.folder_by_id(account_id, folder_id) {
            Some(folder) => Some(self.folder_row(account_id, folder, None, depth, has_children, collapsed)),
            None => None,
        }
    }

    /// The header over the folders of an account: nothing where it is gone.
    pub fn account_header(&self, account_id: &AccountId, separated: bool, collapsed: bool) -> (header: Option<AccountHeader>)
        ensures
            header.deep_view() == (match first_where(self.accounts.deep_view(), account_named(account_id.0@)) {
                Some(account) => Some(
                    AccountHeaderView {
                        label: self.title_of(account),
                        email: account.email,
                        color_override: self.settings.account_view(account.id).color_override,
                        included: self.included(account.id),
                        separated,
                        collapsed,
                        can_create_folder: !self.offline_accounts.deep_view().contains(account.id),
                    },
                ),
                None => None,
            }),
    {
        match self.account(account_id) {
            Some(account) => {
                let color_override = match self.settings.accounts.get(&account.id) {
                    Some(settings) => settings.color_override,
                    None => None,
                };
                Some(
                    AccountHeader {
                        label: self.account_label(account),
                        email: account.email.clone(),
                        color_override,
                        included: self.unified_account_included(&account.id),
                        separated,
                        collapsed,
                        can_create_folder: !holds_account(&self.offline_accounts, &account.id),
                    },
                )
            },
            None => None,
        }
    }

    /// Whether the row of all inboxes is the selected one.
    pub fn all_inboxes_selected(&self) -> (yes: bool)
        ensures
            yes == self.mailbox.unified_selected_account is None,
    {
        self.mailbox.unified_selected_account.is_none()
    }

    /// What including an account asks for, before the settings are saved.
    pub open spec fn inclusion_asks(self, id: Seq<char>, included: bool) -> Seq<EffectView> {
        if !included {
            Seq::empty()
        } else {
            (if self.mailbox.folders_by_account@.contains_key(id) {
                Seq::empty()
            } else {
                seq![EffectView::LoadFolders { account_id: id }]
            }) + (if self.lacks_tags(id) {
                seq![EffectView::LoadTags { account_id: id }]
            } else {
                Seq::empty()
            })
        }
    }

    /// Lets an account take part in the unified inbox, or leaves it out. What the account
    /// lacks is loaded.
    pub fn set_unified_account_included(&mut self, account_id: &AccountId, included: bool)
        ensures
            final(self).settings.global.unified_hidden_account_ids.deep_view() == with_membership(
                old(self).settings.global.unified_hidden_account_ids.deep_view(),
                account_id.0@,
                !included,
            ),
            same_but_hidden(old(self).settings.global, final(self).settings.global),
            final(self).settings.accounts == old(self).settings.accounts,
            final(self).tags.loading.deep_view() == (if included && old(self).lacks_tags(account_id.0@) {
                old(self).tags.loading.deep_view().push(account_id.0@)
            } else {
                old(self).tags.loading.deep_view()
            }),
            final(self).asked(
                *old(self),
                old(self).inclusion_asks(account_id.0@, included) + seq![
                    EffectView::SaveSettings,
                    EffectView::ReloadCalendar,
                    EffectView::RefreshContacts,
                ] + (if old(self).mailbox.unified_selected_account is None {
                    seq![EffectView::SelectFolder { account: None, folder_id: None }]
                } else {
                    Seq::empty()
                }),
            ),
            *final(self) == (AviaryApp {
                settings: final(self).settings,
                tags: TagsState { loading: final(self).tags.loading, ..old(self).tags },
                effects: final(self).effects,
                ..*old(self)
            }),
    {
        let ghost start = self.effects.deep_view();
        let ghost id = account_id.0@;
        set_hidden(&mut self.settings.global, &account_id.0, !included);
        if included {
            if !self.mailbox.folders_by_account.contains_key(account_id) {
                self.send(Effect::LoadFolders { account_id: account_id.clone() });
            }
            self.ensure_tags_loaded(account_id);
        }
        let ghost asks = old(self).inclusion_asks(id, included);
        assert(self.effects.deep_view() =~= start + asks);
        self.send(Effect::SaveSettings);
        self.send(Effect::ReloadCalendar);
        self.send(Effect::RefreshContacts);
        let ghost tail = seq![EffectView::SaveSettings, EffectView::ReloadCalendar, EffectView::RefreshContacts];
        assert(self.effects.deep_view() =~= start + (asks + tail));
        if self.mailbox.unified_selected_account.is_none() {
            self.send(Effect::SelectFolder { account: None, folder_id: None });
            assert(self.effects.deep_view() =~= start + (asks + tail + seq![
                EffectView::SelectFolder { account: None, folder_id: None },
            ]));
        } else {
            assert(self.effects.deep_view() =~= start + (asks + tail + Seq::<EffectView>::empty()));
        }
    }

    /// Nothing but the settings differs, and they are saved.
    pub open spec fn settings_saved(self, after: AviaryApp) -> bool {
        &&& after.asked(self, seq![EffectView::SaveSettings])
        &&& after == (AviaryApp { settings: after.settings, effects: after.effects, ..self })
    }

    /// Shows the folders of an account, or hides them.
    pub fn toggle_folder_account_collapsed(&mut self, account_id: &AccountId)
        ensures
            final(self).settings.global.expanded_folder_account_ids.deep_view() == flipped(
                old(self).settings.global.expanded_folder_account_ids.deep_view(),
                account_id.0@,
                other_text(account_id.0@),
            ),
            same_but_unfolded(old(self).settings.global, final(self).settings.global),
            final(self).settings.accounts == old(self).settings.accounts,
            old(self).settings_saved(*final(self)),
    {
        flip_unfolded(&mut self.settings.global, &account_id.0);
        self.send(Effect::SaveSettings);
    }

    /// Shows the favorites, or hides them.
    pub fn toggle_favorites_collapsed(&mut self)
        ensures
            final(self).settings.global.favorite_folders_collapsed == !old(
                self,
            ).settings.global.favorite_folders_collapsed,
            same_but_favorites(old(self).settings.global, final(self).settings.global),
            final(self).settings.accounts == old(self).settings.accounts,
            old(self).settings_saved(*final(self)),
    {
        flip_favorites(&mut self.settings.global);
        self.send(Effect::SaveSettings);
    }

    /// Shows the folders below one, or hides them.
    pub fn toggle_folder_collapsed(&mut self, account_id: &AccountId, folder_id: &String)
        ensures
            ({
                let account = old(self).settings.account_view(account_id.0@);
                account_set(
                    old(self).settings,
                    final(self).settings,
                    account_id.0@,
                    AccountSettingsView {
                        expanded_folder_ids: flipped(account.expanded_folder_ids, folder_id@, other_text(folder_id@)),
                        ..account
                    },
                )
            }),
            old(self).settings_saved(*final(self)),
    {
        let account = self.settings.account_mut(account_id);
        flip_membership(&mut account.expanded_folder_ids, folder_id);
        self.send(Effect::SaveSettings);
    }

    /// Makes a folder a favorite, or no favorite any more.
    pub fn set_folder_pinned(&mut self, account_id: &AccountId, folder_id: &String, pinned: bool)
        ensures
            ({
                let account = old(self).settings.account_view(account_id.0@);
                account_set(
                    old(self).settings,
                    final(self).settings,
                    account_id.0@,
                    AccountSettingsView {
                        pinned_folder_ids: with_membership(account.pinned_folder_ids, folder_id@, pinned),
                        ..account
                    },
                )
            }),
            old(self).settings_saved(*final(self)),
    {
        let account = self.settings.account_mut(account_id);
        set_membership(&mut account.pinned_folder_ids, folder_id, pinned);
        self.send(Effect::SaveSettings);
    }

    /// Makes a folder of the name that was typed; reports whether there was one. Without
    /// a name the dialog stays open.
    pub fn create_folder(&mut self, account_id: &AccountId, parent_id: Option<String>, typed: &str) -> (done: bool)
        ensures
            done == (trimmed(typed@).len() > 0),
            final(self).asked(
                *old(self),
                if done {
                    seq![
                        EffectView::CreateFolder {
                            account_id: account_id.0@,
                            name: trimmed(typed@),
                            parent_id: parent_id.deep_view(),
                        },
                    ]
                } else {
                    Seq::empty()
                },
            ),
            *final(self) == (AviaryApp { effects: final(self).effects, ..*old(self) }),
    {
        assert(self.effects.deep_view() =~= old(self).effects.deep_view() + Seq::<EffectView>::empty());
        let name = trim(typed);
        if name.as_str().is_empty() {
            return false;
        }
        self.send(Effect::CreateFolder { account_id: account_id.clone(), name, parent_id });
        true
    }

    /// Gives a folder the name that was typed; reports whether there was one.
    pub fn rename_folder(&mut self, account_id: &AccountId, folder: &String, typed: &str) -> (done: bool)
        ensures
            done == (trimmed(typed@).len() > 0),
            final(self).asked(
                *old(self),
                if done {
                    seq![
                        EffectView::RenameFolder {
                            account_id: account_id.0@,
                            folder: folder@,
                            new_name: trimmed(typed@),
                        },
                    ]
                } else {
                    Seq::empty()
                },
            ),
            *final(self) == (AviaryApp { effects: final(self).effects, ..*old(self) }),
    {
        assert(self.effects.deep_view() =~= old(self).effects.deep_view() + Seq::<EffectView>::empty());
        let new_name = trim(typed);
        if new_name.as_str().is_empty() {
            return false;
        }
        self.send(Effect::RenameFolder { account_id: account_id.clone(), folder: folder.clone(), new_name });
        true
    }

    /// Deletes a folder, after the delay in which this can be undone.
    pub fn delete_folder(&mut self, account_id: &AccountId, folder: &String)
        ensures
            final(self).asked(
                *old(self),
                seq![
                    EffectView::DeleteFolder {
                        account_id: account_id.0@,
                        folder: folder@,
                        delay_secs: old(self).settings.global.action_delay(),
                    },
                ],
            ),
            *final(self) == (AviaryApp { effects: final(self).effects, ..*old(self) }),
    {
        let delay_secs: u32 = self.settings.global.effective_action_delay_secs();
        self.send(Effect::DeleteFolder { account_id: account_id.clone(), folder: folder.clone(), delay_secs });
    }

    /// Whether the tab in front is a composer.
    pub open spec fn composing(self) -> bool {
        match self.mailbox.viewer.active_tab {
            Some(i) => i < self.mailbox.viewer.open_tabs.len() && self.mailbox.viewer.open_tabs[i as int] is Compose,
            None => false,
        }
    }

    /// What stands in the right part of the mail view: the history of a sender means
    /// nothing while one composes.
    pub fn reading_layout(&self) -> (layout: ReadingLayout)
        ensures
            layout == (if self.composing() {
                ReadingLayout::ReaderAlone
            } else if self.sender_history_expanded {
                ReadingLayout::WithHistory
            } else {
                ReadingLayout::WithHistoryBar
            }),
    {
        let composing = match self.mailbox.viewer.active_tab {
            Some(i) => i < self.mailbox.viewer.open_tabs.len() && (match &self.mailbox.viewer.open_tabs[i] {
                ViewerTab::Compose { .. } => true,
                _ => false,
            }),
            None => false,
        };
        if composing {
            ReadingLayout::ReaderAlone
        } else if self.sender_history_expanded {
            ReadingLayout::WithHistory
        } else {
            ReadingLayout::WithHistoryBar
        }
    }
}

proof fn lemma_no_favorites(account_id: Seq<char>, pinned: Seq<Seq<char>>)
    ensures
        favorites_of(account_id, pinned, Seq::empty()) == Seq::<(Seq<char>, Seq<char>)>::empty(),
    decreases pinned.len(),
{
    reveal(Seq::filter);
    let none = Seq::<MailFolderView>::empty();
    let test = |id: Seq<char>| none.any(folder_named(id));
    if pinned.len() > 0 {
        lemma_no_favorites(account_id, pinned.drop_last());
        assert(!test(pinned.last()));
        assert(pinned.filter(test) == pinned.drop_last().filter(test));
    } else {
        assert(pinned.filter(test) =~= Seq::empty());
    }
    assert(favorites_of(account_id, pinned, none) =~= Seq::empty());
}

/// A folder that is made a favorite is one, and one that is no favorite any more is none;
/// others stay as they were.
pub proof fn law_favorites(pinned: Seq<Seq<char>>, id: Seq<char>, other: Seq<char>, member: bool)
    ensures
        with_membership(pinned, id, member).contains(other) == (if other == id {
            member
        } else {
            pinned.contains(other)
        }),
        pinned.no_duplicates() ==> with_membership(pinned, id, member).no_duplicates(),
        with_membership(with_membership(pinned, id, member), id, member) == with_membership(pinned, id, member),
{
    let rest = pinned.filter(other_text(id));
    crate::navigation::lemma_other_texts(pinned, id);
    if !member {
        crate::lists::lemma_filter_all(rest, other_text(id));
        if pinned.contains(other) && other != id {
            crate::navigation::lemma_filter_keeps(pinned, other_text(id), other);
        }
    } else if !pinned.contains(id) {
        let more = pinned.push(id);
        assert(more[pinned.len() as int] == id);
        if pinned.contains(other) {
            let i = choose|i: int| 0 <= i < pinned.len() && pinned[i] == other;
            assert(more[i] == other);
        }
        if more.contains(other) && other != id {
            let i = choose|i: int| 0 <= i < more.len() && more[i] == other;
            assert(pinned[i] == other);
        }
    }
}

} // verus!
