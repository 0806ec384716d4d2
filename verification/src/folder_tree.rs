//! Folders of an account: what they are called, how they are ordered, and the
//! tree that the sidebar shows.
use crate::lists::{retain_where, sort_stable, stable_sort};
use crate::model::{MailFolder, MailFolderView};
use crate::text::{lowercase, text_at_most, text_eq, text_le, to_lowercase};
use vstd::prelude::*;
use vstd::string::*;

verus! {

/// A text of the interface: an entry of the translation catalog, or a text that
/// is shown as it is.
#[derive(Debug, PartialEq, Eq)]
pub enum Label {
    Key(&'static str),
    Text(String),
}

/// Mathematical form of [`Label`].
#[verifier::ext_equal]
pub enum LabelView {
    Key(Seq<char>),
    Text(Seq<char>),
}

impl DeepView for Label {
    type V = LabelView;

    open spec fn deep_view(&self) -> LabelView {
        match self {
            Label::Key(key) => LabelView::Key(key@),
            Label::Text(text) => LabelView::Text(text@),
        }
    }
}

impl Label {
    /// A copy of the label.
    pub fn copy(&self) -> (label: Label)
        ensures
            label.deep_view() == self.deep_view(),
    {
        match self {
            Label::Key(key) => Label::Key(key),
            Label::Text(text) => Label::Text(text.clone()),
        }
    }
}

/// Folders that every provider has under a name of its own.
#[derive(Debug, Clone, Copy, PartialEq, Eq, Structural)]
pub enum WellKnownFolder {
    Inbox,
    CategoryPersonal,
    CategorySocial,
    CategoryPromotions,
    CategoryUpdates,
    CategoryForums,
    Drafts,
    SentItems,
    Archive,
    JunkEmail,
    DeletedItems,
    Outbox,
}

impl WellKnownFolder {
    /// The name by which providers report the folder.
    pub open spec fn name(self) -> Seq<char> {
        match self {
            WellKnownFolder::Inbox => "inbox"@,
            WellKnownFolder::CategoryPersonal => "category-personal"@,
            WellKnownFolder::CategorySocial => "category-social"@,
            WellKnownFolder::CategoryPromotions => "category-promotions"@,
            WellKnownFolder::CategoryUpdates => "category-updates"@,
            WellKnownFolder::CategoryForums => "category-forums"@,
            WellKnownFolder::Drafts => "drafts"@,
            WellKnownFolder::SentItems => "sentitems"@,
            WellKnownFolder::Archive => "archive"@,
            WellKnownFolder::JunkEmail => "junkemail"@,
            WellKnownFolder::DeletedItems => "deleteditems"@,
            WellKnownFolder::Outbox => "outbox"@,
        }
    }

    /// Entry of the translation catalog with the folder's label.
    pub open spec fn spec_label(self) -> Seq<char> {
        match self {
            WellKnownFolder::Inbox => "folder-inbox"@,
            WellKnownFolder::CategoryPersonal => "folder-category-primary"@,
            WellKnownFolder::CategorySocial => "folder-category-social"@,
            WellKnownFolder::CategoryPromotions => "folder-category-promotions"@,
            WellKnownFolder::CategoryUpdates => "folder-category-updates"@,
            WellKnownFolder::CategoryForums => "folder-category-forums"@,
            WellKnownFolder::Drafts => "folder-drafts"@,
            WellKnownFolder::SentItems => "folder-sent"@,
            WellKnownFolder::Archive => "folder-archive"@,
            WellKnownFolder::JunkEmail => "folder-junk"@,
            WellKnownFolder::DeletedItems => "folder-deleted"@,
            WellKnownFolder::Outbox => "folder-outbox"@,
        }
    }

    /// Icon of the folder.
    pub open spec fn spec_icon(self) -> Seq<char> {
        match self {
            WellKnownFolder::Inbox => "inbox"@,
            WellKnownFolder::CategoryPersonal => "inbox"@,
            WellKnownFolder::CategorySocial => "users"@,
            WellKnownFolder::CategoryPromotions => "tag"@,
            WellKnownFolder::CategoryUpdates => "bell"@,
            WellKnownFolder::CategoryForums => "folder"@,
            WellKnownFolder::Drafts => "pencil"@,
            WellKnownFolder::SentItems => "send"@,
            WellKnownFolder::Archive => "archive"@,
            WellKnownFolder::JunkEmail => "alert-circle"@,
            WellKnownFolder::DeletedItems => "trash-2"@,
            WellKnownFolder::Outbox => "folder"@,
        }
    }

    /// Place of the folder among its siblings.
    pub open spec fn spec_rank(self) -> u8 {
        match self {
            WellKnownFolder::Inbox => 0,
            WellKnownFolder::CategoryPersonal => 1,
            WellKnownFolder::CategorySocial => 2,
            WellKnownFolder::CategoryPromotions => 3,
            WellKnownFolder::CategoryUpdates => 4,
            WellKnownFolder::CategoryForums => 5,
            WellKnownFolder::Drafts => 6,
            WellKnownFolder::SentItems => 7,
            WellKnownFolder::Archive => 8,
            WellKnownFolder::JunkEmail => 9,
            WellKnownFolder::DeletedItems => 10,
            WellKnownFolder::Outbox => 20,
        }
    }

    pub fn label(self) -> (label: &'static str)
        ensures
            label@ == self.spec_label(),
    {
        match self {
            WellKnownFolder::Inbox => "folder-inbox",
            WellKnownFolder::CategoryPersonal => "folder-category-primary",
            WellKnownFolder::CategorySocial => "folder-category-social",
            WellKnownFolder::CategoryPromotions => "folder-category-promotions",
            WellKnownFolder::CategoryUpdates => "folder-category-updates",
            WellKnownFolder::CategoryForums => "folder-category-forums",
            WellKnownFolder::Drafts => "folder-drafts",
            WellKnownFolder::SentItems => "folder-sent",
            WellKnownFolder::Archive => "folder-archive",
            WellKnownFolder::JunkEmail => "folder-junk",
            WellKnownFolder::DeletedItems => "folder-deleted",
            WellKnownFolder::Outbox => "folder-outbox",
        }
    }

    pub fn icon(self) -> (icon: &'static str)
        ensures
            icon@ == self.spec_icon(),
    {
        match self {
            WellKnownFolder::Inbox => "inbox",
            WellKnownFolder::CategoryPersonal => "inbox",
            WellKnownFolder::CategorySocial => "users",
            WellKnownFolder::CategoryPromotions => "tag",
            WellKnownFolder::CategoryUpdates => "bell",
            WellKnownFolder::CategoryForums => "folder",
            WellKnownFolder::Drafts => "pencil",
            WellKnownFolder::SentItems => "send",
            WellKnownFolder::Archive => "archive",
            WellKnownFolder::JunkEmail => "alert-circle",
            WellKnownFolder::DeletedItems => "trash-2",
            WellKnownFolder::Outbox => "folder",
        }
    }

    pub fn rank(self) -> (rank: u8)
        ensures
            rank == self.spec_rank(),
    {
        match self {
            WellKnownFolder::Inbox => 0,
            WellKnownFolder::CategoryPersonal => 1,
            WellKnownFolder::CategorySocial => 2,
            WellKnownFolder::CategoryPromotions => 3,
            WellKnownFolder::CategoryUpdates => 4,
            WellKnownFolder::CategoryForums => 5,
            WellKnownFolder::Drafts => 6,
            WellKnownFolder::SentItems => 7,
            WellKnownFolder::Archive => 8,
            WellKnownFolder::JunkEmail => 9,
            WellKnownFolder::DeletedItems => 10,
            WellKnownFolder::Outbox => 20,
        }
    }
}

/// The well-known folder that a name reports, if any.
pub open spec fn well_known(name: Option<Seq<char>>) -> Option<WellKnownFolder> {
    match name {
        None => None,
        Some(name) => {
            if name == WellKnownFolder::Inbox.name() {
                Some(WellKnownFolder::Inbox)
            } else if name == WellKnownFolder::CategoryPersonal.name() {
                Some(WellKnownFolder::CategoryPersonal)
            } else if name == WellKnownFolder::CategorySocial.name() {
                Some(WellKnownFolder::CategorySocial)
            } else if name == WellKnownFolder::CategoryPromotions.name() {
                Some(WellKnownFolder::CategoryPromotions)
            } else if name == WellKnownFolder::CategoryUpdates.name() {
                Some(WellKnownFolder::CategoryUpdates)
            } else if name == WellKnownFolder::CategoryForums.name() {
                Some(WellKnownFolder::CategoryForums)
            } else if name == WellKnownFolder::Drafts.name() {
                Some(WellKnownFolder::Drafts)
            } else if name == WellKnownFolder::SentItems.name() {
                Some(WellKnownFolder::SentItems)
            } else if name == WellKnownFolder::Archive.name() {
                Some(WellKnownFolder::Archive)
            } else if name == WellKnownFolder::JunkEmail.name() {
                Some(WellKnownFolder::JunkEmail)
            } else if name == WellKnownFolder::DeletedItems.name() {
                Some(WellKnownFolder::DeletedItems)
            } else if name == WellKnownFolder::Outbox.name() {
                Some(WellKnownFolder::Outbox)
            } else {
                None
            }
        },
    }
}

/// The well-known folder that a folder is, if any.
pub fn well_known_folder(folder: &MailFolder) -> (known: Option<WellKnownFolder>)
    ensures
        known == well_known(folder.deep_view().well_known_name),
{
    match &folder.well_known_name {
        None => None,
        Some(name) => {
            if text_eq(name, "inbox") {
                Some(WellKnownFolder::Inbox)
            } else if text_eq(name, "category-personal") {
                Some(WellKnownFolder::CategoryPersonal)
            } else if text_eq(name, "category-social") {
                Some(WellKnownFolder::CategorySocial)
            } else if text_eq(name, "category-promotions") {
                Some(WellKnownFolder::CategoryPromotions)
            } else if text_eq(name, "category-updates") {
                Some(WellKnownFolder::CategoryUpdates)
            } else if text_eq(name, "category-forums") {
                Some(WellKnownFolder::CategoryForums)
            } else if text_eq(name, "drafts") {
                Some(WellKnownFolder::Drafts)
            } else if text_eq(name, "sentitems") {
                Some(WellKnownFolder::SentItems)
            } else if text_eq(name, "archive") {
                Some(WellKnownFolder::Archive)
            } else if text_eq(name, "junkemail") {
                Some(WellKnownFolder::JunkEmail)
            } else if text_eq(name, "deleteditems") {
                Some(WellKnownFolder::DeletedItems)
            } else if text_eq(name, "outbox") {
                Some(WellKnownFolder::Outbox)
            } else {
                None
            }
        },
    }
}

/// What a folder is called: a well-known one by its translation, any other by
/// its own name.
pub open spec fn folder_label(folder: MailFolderView) -> LabelView {
    match well_known(folder.well_known_name) {
        Some(known) => LabelView::Key(known.spec_label()),
        None => LabelView::Text(folder.display_name),
    }
}

/// What a folder is called.
pub fn folder_display_label(folder: &MailFolder) -> (label: Label)
    ensures
        label.deep_view() == folder_label(folder.deep_view()),
{
    match well_known_folder(folder) {
        Some(known) => Label::Key(known.label()),
        None => Label::Text(folder.display_name.clone()),
    }
}

/// The icon of a folder.
pub open spec fn icon_of(folder: MailFolderView) -> Seq<char> {
    match well_known(folder.well_known_name) {
        Some(known) => known.spec_icon(),
        None => "folder"@,
    }
}

/// The icon of a folder.
pub fn folder_icon(folder: &MailFolder) -> (icon: &'static str)
    ensures
        icon@ == icon_of(folder.deep_view()),
{
    match well_known_folder(folder) {
        Some(known) => known.icon(),
        None => "folder",
    }
}

/// Place of a folder among its siblings: well-known ones first.
pub open spec fn folder_rank(folder: MailFolderView) -> u8 {
    match well_known(folder.well_known_name) {
        Some(known) => known.spec_rank(),
        None => 20,
    }
}

/// By what folders are ordered: rank, then name without regard to case.
pub fn folder_sort_key(folder: &MailFolder) -> (key: (u8, String))
    ensures
        key.0 == folder_rank(folder.deep_view()),
        key.1@ == lowercase(folder.deep_view().display_name),
{
    let rank: u8 = match well_known_folder(folder) {
        Some(known) => known.rank(),
        None => 20,
    };
    (rank, to_lowercase(&folder.display_name))
}

/// Whether a folder may stand before another one.
pub open spec fn folder_le() -> spec_fn(MailFolderView, MailFolderView) -> bool {
    |a: MailFolderView, b: MailFolderView|
        folder_rank(a) < folder_rank(b) || folder_rank(a) == folder_rank(b) && text_le(
            lowercase(a.display_name),
            lowercase(b.display_name),
        )
}

/// Folders in display order.
fn sort_folders<'a>(folders: Vec<&'a MailFolder>) -> (sorted: Vec<&'a MailFolder>)
    ensures
        sorted.deep_view() == stable_sort(folders.deep_view(), folder_le()),
{
    sort_stable(
        folders,
        |a: &&'a MailFolder, b: &&'a MailFolder| -> (le: bool)
            ensures
                le == folder_le()(a.deep_view(), b.deep_view())
            {
            let x = folder_sort_key(a);
            let y = folder_sort_key(b);
            x.0 < y.0 || x.0 == y.0 && text_at_most(&x.1, &y.1)
        },
        Ghost(folder_le()),
    )
}

/// A folder in the tree.
#[derive(Debug, PartialEq, Eq)]
pub struct FolderTreeRow {
    pub folder: MailFolder,
    pub depth: usize,
    pub has_children: bool,
}

/// Mathematical form of [`FolderTreeRow`].
#[verifier::ext_equal]
pub struct FolderTreeRowView {
    pub folder: MailFolderView,
    pub depth: usize,
    pub has_children: bool,
}

impl DeepView for FolderTreeRow {
    type V = FolderTreeRowView;

    open spec fn deep_view(&self) -> FolderTreeRowView {
        FolderTreeRowView {
            folder: self.folder.deep_view(),
            depth: self.depth,
            has_children: self.has_children,
        }
    }
}

impl Clone for FolderTreeRow {
    fn clone(&self) -> (copy: Self)
        ensures
            copy.deep_view() == self.deep_view(),
    {
        FolderTreeRow {
            folder: self.folder.clone(),
            depth: self.depth,
            has_children: self.has_children,
        }
    }
}

/// Whether a folder has the id `id`.
pub open spec fn has_id(id: Seq<char>) -> spec_fn(MailFolderView) -> bool {
    |folder: MailFolderView| folder.id == id
}

/// Whether a folder has an id other than `id`.
pub open spec fn other_id(id: Seq<char>) -> spec_fn(MailFolderView) -> bool {
    |folder: MailFolderView| folder.id != id
}

/// Whether a folder stands at the top: it names no parent, itself, or one that
/// is not there.
pub open spec fn is_root(all: Seq<MailFolderView>) -> spec_fn(MailFolderView) -> bool {
    |folder: MailFolderView|
        match folder.parent_id {
            None => true,
            Some(parent) => parent == folder.id || !all.any(has_id(parent)),
        }
}

/// Whether a folder stands below the folder `id`.
pub open spec fn is_child(all: Seq<MailFolderView>, id: Seq<char>) -> spec_fn(MailFolderView) -> bool {
    |folder: MailFolderView| !is_root(all)(folder) && folder.parent_id == Some(id)
}

/// The folders at the top, in display order.
pub open spec fn roots(all: Seq<MailFolderView>) -> Seq<MailFolderView> {
    stable_sort(all.filter(is_root(all)), folder_le())
}

/// The folders below the folder `id`, in display order.
pub open spec fn children(all: Seq<MailFolderView>, id: Seq<char>) -> Seq<MailFolderView> {
    stable_sort(all.filter(is_child(all, id)), folder_le())
}

/// A folder that the walk through the tree has yet to visit; `shown` tells
/// whether every folder above it is expanded.
pub struct PendingFolder<'a> {
    pub folder: &'a MailFolder,
    pub depth: usize,
    pub shown: bool,
}

/// Mathematical form of [`PendingFolder`].
#[verifier::ext_equal]
pub struct PendingFolderView {
    pub folder: MailFolderView,
    pub depth: usize,
    pub shown: bool,
}

impl<'a> DeepView for PendingFolder<'a> {
    type V = PendingFolderView;

    open spec fn deep_view(&self) -> PendingFolderView {
        PendingFolderView { folder: self.folder.deep_view(), depth: self.depth, shown: self.shown }
    }
}

/// `folders` as pending ones, the first to be visited last.
pub open spec fn pending(folders: Seq<MailFolderView>, depth: usize, shown: bool) -> Seq<PendingFolderView> {
    Seq::new(
        folders.len(),
        |i: int| PendingFolderView { folder: folders[folders.len() - 1 - i], depth, shown },
    )
}

/// The rows that the pending folders and all below them give, and the folders
/// that are then still unvisited. The last of `stack` is visited first; a folder
/// whose id was visited before is passed over, which ends every cycle.
pub open spec fn walk(
    all: Seq<MailFolderView>,
    expanded: Seq<Seq<char>>,
    stack: Seq<PendingFolderView>,
    left: Seq<MailFolderView>,
) -> (Seq<FolderTreeRowView>, Seq<MailFolderView>)
    decreases left.len(), stack.len(),
    via walk_ends
{
    if stack.len() == 0 {
        (Seq::empty(), left)
    } else {
        let next = stack.last();
        let id = next.folder.id;
        if !left.any(has_id(id)) {
            walk(all, expanded, stack.drop_last(), left)
        } else {
            let nested = children(all, id);
            let below = pending(nested, (next.depth + 1) as usize, next.shown && expanded.contains(id));
            let (rows, unvisited) = walk(all, expanded, stack.drop_last() + below, left.filter(other_id(id)));
            if next.shown {
                let row = FolderTreeRowView { folder: next.folder, depth: next.depth, has_children: nested.len() > 0 };
                (seq![row] + rows, unvisited)
            } else {
                (rows, unvisited)
            }
        }
    }
}

#[via_fn]
proof fn walk_ends(
    all: Seq<MailFolderView>,
    expanded: Seq<Seq<char>>,
    stack: Seq<PendingFolderView>,
    left: Seq<MailFolderView>,
) {
    if stack.len() > 0 {
        let id = stack.last().folder.id;
        if left.any(has_id(id)) {
            lemma_fewer_left(left, id);
        }
    }
}

/// Visiting a folder leaves fewer to visit.
pub proof fn lemma_fewer_left(left: Seq<MailFolderView>, id: Seq<char>)
    requires
        left.any(has_id(id)),
    ensures
        left.filter(other_id(id)).len() < left.len(),
    decreases left.len(),
{
    reveal(Seq::filter);
    let init = left.drop_last();
    if left.last().id != id {
        let k = choose|k: int| 0 <= k < left.len() && has_id(id)(left[k]);
        assert(has_id(id)(init[k]));
        lemma_fewer_left(init, id);
    } else {
        init.lemma_filter_len(other_id(id));
    }
}

/// The whole tree: the folders at the top with what is below them, then those
/// that only a cycle leads to.
pub open spec fn tree_rows(all: Seq<MailFolderView>, expanded: Seq<Seq<char>>) -> Seq<FolderTreeRowView> {
    let (rows, orphans) = walk(all, expanded, pending(roots(all), 0, true), all);
    rows + walk(all, expanded, pending(stable_sort(orphans, folder_le()), 0, true), orphans).0
}

/// Whether one of the folders has the id `id`.
pub(crate) fn any_has_id(folders: &Vec<&MailFolder>, id: &String) -> (found: bool)
    ensures
        found == folders.deep_view().any(has_id(id@)),
{
    crate::lists::any_where(
        folders,
        |folder: &&MailFolder| -> (same: bool)
            ensures
                same == (folder.deep_view().id == id@)
            { folder.id == *id },
        Ghost(has_id(id@)),
    )
}

/// Whether a folder stands at the top.
pub(crate) fn stands_at_top(all: &Vec<&MailFolder>, folder: &MailFolder) -> (top: bool)
    ensures
        top == is_root(all.deep_view())(folder.deep_view()),
{
    match &folder.parent_id {
        None => true,
        Some(parent) => *parent == folder.id || !any_has_id(all, parent),
    }
}

/// The folders at the top, in display order.
fn collect_roots<'a>(all: &Vec<&'a MailFolder>) -> (found: Vec<&'a MailFolder>)
    ensures
        found.deep_view() == roots(all.deep_view()),
{
    let kept = retain_where(
        copy_refs(all),
        |folder: &&'a MailFolder| -> (keep: bool)
            ensures
                keep == is_root(all.deep_view())(folder.deep_view())
            { stands_at_top(all, folder) },
        Ghost(is_root(all.deep_view())),
    );
    sort_folders(kept)
}

/// The folders below the folder `id`, in display order.
fn collect_children<'a>(all: &Vec<&'a MailFolder>, id: &String) -> (found: Vec<&'a MailFolder>)
    ensures
        found.deep_view() == children(all.deep_view(), id@),
{
    let kept = retain_where(
        copy_refs(all),
        |folder: &&'a MailFolder| -> (keep: bool)
            ensures
                keep == is_child(all.deep_view(), id@)(folder.deep_view())
            {
            let below = match &folder.parent_id {
                Some(parent) => *parent == *id,
                None => false,
            };
            below && !stands_at_top(all, folder)
        },
        Ghost(is_child(all.deep_view(), id@)),
    );
    sort_folders(kept)
}

/// A second list of the same folders.
pub(crate) fn copy_refs<'a>(folders: &Vec<&'a MailFolder>) -> (copy: Vec<&'a MailFolder>)
    ensures
        copy@ == folders@,
        copy.deep_view() == folders.deep_view(),
{
    let mut copy: Vec<&'a MailFolder> = Vec::new();
    let mut i: usize = 0;
    while i < folders.len()
        invariant
            i <= folders.len(),
            copy@ == folders@.take(i as int),
        decreases folders.len() - i,
    {
        assert(folders@.take(i + 1) =~= folders@.take(i as int).push(folders[i as int]));
        copy.push(folders[i]);
        i += 1;
    }
    assert(folders@.take(folders@.len() as int) =~= folders@);
    copy
}

/// Puts folders on the stack so that the first is visited first.
fn push_pending<'a>(stack: &mut Vec<PendingFolder<'a>>, folders: &Vec<&'a MailFolder>, depth: usize, shown: bool)
    ensures
        final(stack).deep_view() == old(stack).deep_view() + pending(folders.deep_view(), depth, shown),
{
    let ghost start = stack.deep_view();
    let ghost all = folders.deep_view();
    let mut i: usize = folders.len();
    while i > 0
        invariant
            i <= folders.len(),
            all == folders.deep_view(),
            stack.deep_view() == start + pending(all, depth, shown).take(folders.len() - i),
        decreases i,
    {
        let ghost before = stack.deep_view();
        i -= 1;
        assert(all[i as int] == folders[i as int].deep_view());
        stack.push(PendingFolder { folder: folders[i], depth, shown });
        let ghost node = PendingFolderView { folder: all[i as int], depth, shown };
        assert(stack.deep_view() =~= before.push(node));
        assert(pending(all, depth, shown).take(folders.len() - i) =~= pending(all, depth, shown).take(
            folders.len() - i - 1,
        ).push(node));
    }
    assert(pending(all, depth, shown).take(all.len() as int) =~= pending(all, depth, shown));
    assert(stack.deep_view() =~= start + pending(all, depth, shown));
}

/// Walks through the tree, appending the rows and returning what is unvisited.
fn walk_folders<'a>(
    all: &Vec<&'a MailFolder>,
    expanded: &Vec<String>,
    first: &Vec<&'a MailFolder>,
    left: Vec<&'a MailFolder>,
    rows: &mut Vec<FolderTreeRow>,
) -> (unvisited: Vec<&'a MailFolder>)
    requires
        left.len() <= all.len(),
    ensures
        ({
            let (added, after) = walk(
                all.deep_view(),
                expanded.deep_view(),
                pending(first.deep_view(), 0, true),
                left.deep_view(),
            );
            &&& final(rows).deep_view() == old(rows).deep_view() + added
            &&& unvisited.deep_view() == after
        }),
        unvisited.len() <= left.len(),
{
    let ghost folders = all.deep_view();
    let ghost open_ids = expanded.deep_view();
    let ghost start = rows.deep_view();
    let ghost whole = walk(folders, open_ids, pending(first.deep_view(), 0, true), left.deep_view());
    let ghost total = left.len();
    let mut left = left;
    let mut stack: Vec<PendingFolder<'a>> = Vec::new();
    push_pending(&mut stack, first, 0, true);
    assert(stack.deep_view() =~= pending(first.deep_view(), 0, true));
    assert(start + whole.0 =~= rows.deep_view() + walk(folders, open_ids, stack.deep_view(), left.deep_view()).0);
    assert forall|i: int| 0 <= i < stack.len() implies (#[trigger] stack[i]).depth <= all.len() - left.len() by {
        assert(stack.deep_view()[i].depth == stack[i].depth);
    }
    while stack.len() > 0
        invariant
            folders == all.deep_view(),
            open_ids == expanded.deep_view(),
            left.len() <= total,
            total <= all.len(),
            whole.1 == walk(folders, open_ids, stack.deep_view(), left.deep_view()).1,
            start + whole.0 == rows.deep_view() + walk(folders, open_ids, stack.deep_view(), left.deep_view()).0,
            forall|i: int| 0 <= i < stack.len() ==> (#[trigger] stack[i]).depth <= all.len() - left.len(),
        decreases left.len(), stack.len(),
    {
        let ghost before = stack.deep_view();
        let ghost raw = stack@;
        let ghost left_before = left.deep_view();
        let ghost rows_before = rows.deep_view();
        assert(before.last() == stack[stack.len() - 1].deep_view());
        let next = stack.pop().unwrap();
        let ghost id = next.folder.id@;
        assert(stack.deep_view() =~= before.drop_last());
        assert(left.deep_view().len() == left.len());
        if any_has_id(&left, &next.folder.id) {
            let folder = next.folder;
            left = retain_where(
                left,
                |other: &&'a MailFolder| -> (keep: bool)
                    ensures
                        keep == (other.deep_view().id != folder.id@)
                    { other.id != folder.id },
                Ghost(other_id(folder.id@)),
            );
            proof {
                lemma_fewer_left(left_before, id);
                assert(left.deep_view().len() == left.len());
            }
            let nested = collect_children(all, &folder.id);
            assert(nested.deep_view().len() == nested.len());
            if next.shown {
                rows.push(
                    FolderTreeRow { folder: folder.clone(), depth: next.depth, has_children: nested.len() > 0 },
                );
                assert(rows.deep_view() =~= rows_before.push(
                    FolderTreeRowView {
                        folder: folder.deep_view(),
                        depth: next.depth,
                        has_children: nested.len() > 0,
                    },
                ));
            }
            let open = crate::list_entries::holds_text(expanded, &folder.id);
            let ghost kept = stack.deep_view();
            push_pending(&mut stack, &nested, next.depth + 1, next.shown && open);
            proof {
                assert forall|i: int| 0 <= i < stack.len() implies (#[trigger] stack[i]).depth <= all.len()
                    - left.len() by {
                    assert(stack.deep_view()[i].depth == stack[i].depth);
                    if i < kept.len() {
                        assert(stack.deep_view()[i] == before[i]);
                        assert(before[i] == raw[i].deep_view());
                        assert(raw[i].depth <= all.len() - left_before.len());
                    } else {
                        assert(raw[raw.len() - 1].depth <= all.len() - left_before.len());
                    }
                }
                let rest = walk(folders, open_ids, stack.deep_view(), left.deep_view()).0;
                assert(start + whole.0 =~= rows.deep_view() + rest);
            }
        }
    }
    left
}

/// The tree of an account's folders as a list of rows: the children of a folder
/// follow it when it is expanded.
pub fn folder_tree(folders: &Vec<MailFolder>, expanded: &Vec<String>) -> (rows: Vec<FolderTreeRow>)
    ensures
        rows.deep_view() == tree_rows(folders.deep_view(), expanded.deep_view()),
{
    let mut all: Vec<&MailFolder> = Vec::new();
    let mut i: usize = 0;
    while i < folders.len()
        invariant
            i <= folders.len(),
            all.len() == i,
            forall|j: int| 0 <= j < i ==> *(#[trigger] all[j]) == folders[j],
        decreases folders.len() - i,
    {
        all.push(&folders[i]);
        i += 1;
    }
    assert(all.deep_view() =~= folders.deep_view());
    let mut rows: Vec<FolderTreeRow> = Vec::new();
    let top = collect_roots(&all);
    let left = copy_refs(&all);
    assert(left.len() == left.deep_view().len());
    let orphans = walk_folders(&all, expanded, &top, left, &mut rows);
    let sorted = sort_folders(copy_refs(&orphans));
    walk_folders(&all, expanded, &sorted, orphans, &mut rows);
    assert(rows.deep_view() =~= tree_rows(folders.deep_view(), expanded.deep_view()));
    rows
}

/// The ids of rows.
pub open spec fn row_ids(rows: Seq<FolderTreeRowView>) -> Seq<Seq<char>> {
    rows.map_values(|row: FolderTreeRowView| row.folder.id)
}

/// What a walk does: it visits each id that is on the stack or below it, and
/// shows no id twice.
proof fn lemma_walk(
    all: Seq<MailFolderView>,
    expanded: Seq<Seq<char>>,
    stack: Seq<PendingFolderView>,
    left: Seq<MailFolderView>,
)
    ensures
        ({
            let (rows, after) = walk(all, expanded, stack, left);
            &&& row_ids(rows).no_duplicates()
            &&& forall|id: Seq<char>| #[trigger] row_ids(rows).contains(id) ==> left.any(has_id(id)) && !after.any(
                has_id(id),
            )
            &&& forall|id: Seq<char>| #[trigger] after.any(has_id(id)) ==> left.any(has_id(id))
            &&& forall|i: int| 0 <= i < stack.len() ==> !after.any(has_id((#[trigger] stack[i]).folder.id))
            &&& (forall|i: int| 0 <= i < stack.len() ==> (#[trigger] stack[i]).shown) && (forall|i: int|
                0 <= i < all.len() ==> expanded.contains((#[trigger] all[i]).id)) && (forall|i: int|
                0 <= i < stack.len() ==> all.contains((#[trigger] stack[i]).folder)) ==> forall|id: Seq<char>|
                left.any(has_id(id)) ==> #[trigger] row_ids(rows).contains(id) || after.any(has_id(id))
            &&& after.len() <= left.len()
        }),
    decreases left.len(), stack.len(),
{
    let (rows, after) = walk(all, expanded, stack, left);
    if stack.len() > 0 {
        let next = stack.last();
        let id = next.folder.id;
        let rest = stack.drop_last();
        let everything = (forall|i: int| 0 <= i < stack.len() ==> (#[trigger] stack[i]).shown) && (forall|i: int|
            0 <= i < all.len() ==> expanded.contains((#[trigger] all[i]).id)) && (forall|i: int|
            0 <= i < stack.len() ==> all.contains((#[trigger] stack[i]).folder));
        assert(stack[stack.len() - 1] == next);
        if !left.any(has_id(id)) {
            lemma_walk(all, expanded, rest, left);
            assert forall|i: int| 0 <= i < stack.len() implies !after.any(
                has_id((#[trigger] stack[i]).folder.id),
            ) by {
                if i < rest.len() {
                    assert(rest[i] == stack[i]);
                }
            }
            if everything {
                assert forall|i: int| 0 <= i < rest.len() implies (#[trigger] rest[i]).shown by {
                    assert(stack[i].shown);
                }
                assert forall|i: int| 0 <= i < rest.len() implies all.contains((#[trigger] rest[i]).folder) by {
                    assert(all.contains(stack[i].folder));
                }
            }
        } else {
            lemma_fewer_left(left, id);
            let nested = children(all, id);
            let below = pending(nested, (next.depth + 1) as usize, next.shown && expanded.contains(id));
            let narrower = left.filter(other_id(id));
            let deeper = rest + below;
            lemma_walk(all, expanded, deeper, narrower);
            let (inner, _) = walk(all, expanded, deeper, narrower);
            assert forall|other: Seq<char>| #[trigger] narrower.any(has_id(other)) <==> left.any(has_id(other))
                && other != id by {
                lemma_any_other(left, id, other);
            }
            assert forall|i: int| 0 <= i < stack.len() implies !after.any(
                has_id((#[trigger] stack[i]).folder.id),
            ) by {
                if i < rest.len() {
                    assert(deeper[i] == stack[i]);
                } else {
                    assert(narrower.any(has_id(id)) || !narrower.any(has_id(id)));
                    assert(!after.any(has_id(id)));
                }
            }
            if next.shown {
                let row = FolderTreeRowView { folder: next.folder, depth: next.depth, has_children: nested.len() > 0 };
                assert(row_ids(rows) =~= seq![id] + row_ids(inner));
                assert(!row_ids(inner).contains(id)) by {
                    if row_ids(inner).contains(id) {
                        assert(narrower.any(has_id(id)));
                    }
                }
                assert(row_ids(rows).no_duplicates());
                assert forall|other: Seq<char>| #[trigger] row_ids(rows).contains(other) <==> other == id
                    || row_ids(inner).contains(other) by {
                    if row_ids(inner).contains(other) {
                        let k = choose|k: int| 0 <= k < row_ids(inner).len() && row_ids(inner)[k] == other;
                        assert(row_ids(rows)[k + 1] == other);
                    }
                    if other == id {
                        assert(row_ids(rows)[0] == id);
                    }
                    if row_ids(rows).contains(other) {
                        let k = choose|k: int| 0 <= k < row_ids(rows).len() && row_ids(rows)[k] == other;
                        if k > 0 {
                            assert(row_ids(inner)[k - 1] == other);
                        }
                    }
                }
            }
            if everything {
                assert(all.contains(next.folder));
                let k = choose|k: int| 0 <= k < all.len() && all[k] == next.folder;
                assert(expanded.contains(all[k].id));
                assert forall|i: int| 0 <= i < deeper.len() implies (#[trigger] deeper[i]).shown by {
                    if i < rest.len() {
                        assert(stack[i].shown);
                    }
                }
                lemma_children_in_all(all, id);
                assert forall|i: int| 0 <= i < deeper.len() implies all.contains((#[trigger] deeper[i]).folder) by {
                    if i < rest.len() {
                        assert(all.contains(stack[i].folder));
                    } else {
                        let j = nested.len() - 1 - (i - rest.len());
                        assert(deeper[i].folder == nested[j]);
                    }
                }
            }
        }
    }
}

pub proof fn lemma_any_other(left: Seq<MailFolderView>, id: Seq<char>, other: Seq<char>)
    ensures
        left.filter(other_id(id)).any(has_id(other)) <==> left.any(has_id(other)) && other != id,
    decreases left.len(),
{
    reveal(Seq::filter);
    if left.len() > 0 {
        let init = left.drop_last();
        lemma_any_other(init, id, other);
        assert(init.push(left.last()) =~= left);
        crate::message_list::lemma_any_push(init, left.last(), has_id(other));
        crate::message_list::lemma_any_push(init.filter(other_id(id)), left.last(), has_id(other));
    }
}

proof fn lemma_children_in_all(all: Seq<MailFolderView>, id: Seq<char>)
    ensures
        forall|j: int| 0 <= j < children(all, id).len() ==> all.contains(#[trigger] children(all, id)[j]),
{
    lemma_sorted_filter_in_all(all, is_child(all, id));
}

/// Sorting and filtering introduce no folder.
proof fn lemma_sorted_filter_in_all(all: Seq<MailFolderView>, p: spec_fn(MailFolderView) -> bool)
    ensures
        forall|j: int|
            0 <= j < stable_sort(all.filter(p), folder_le()).len() ==> all.contains(
                #[trigger] stable_sort(all.filter(p), folder_le())[j],
            ),
        forall|f: MailFolderView|
            #![trigger stable_sort(all.filter(p), folder_le()).contains(f)]
            stable_sort(all.filter(p), folder_le()).contains(f) <==> all.contains(f) && p(f),
{
    broadcast use vstd::seq_lib::to_multiset_contains;
    broadcast use vstd::seq_lib::group_filter_ensures;

    let kept = all.filter(p);
    let sorted = stable_sort(kept, folder_le());
    crate::lists::lemma_stable_sort(kept, folder_le());
    assert forall|f: MailFolderView| #![trigger sorted.contains(f)] sorted.contains(f) <==> all.contains(f) && p(f) by {
        assert(sorted.to_multiset().count(f) > 0 <==> kept.to_multiset().count(f) > 0);
        assert(sorted.contains(f) <==> kept.contains(f));
        if kept.contains(f) {
            all.lemma_filter_contains_rev(p, f);
            let k = choose|k: int| 0 <= k < kept.len() && kept[k] == f;
            all.lemma_filter_pred(p, k);
        }
        if all.contains(f) && p(f) {
            let k = choose|k: int| 0 <= k < all.len() && all[k] == f;
            all.lemma_filter_contains(p, k);
        }
    }
    assert forall|j: int| 0 <= j < sorted.len() implies all.contains(#[trigger] sorted[j]) by {
        assert(sorted.contains(sorted[j]));
    }
}

proof fn lemma_pending_in(folders: Seq<MailFolderView>, all: Seq<MailFolderView>)
    requires
        forall|j: int| 0 <= j < folders.len() ==> all.contains(#[trigger] folders[j]),
    ensures
        forall|i: int|
            0 <= i < pending(folders, 0, true).len() ==> all.contains((#[trigger] pending(folders, 0, true)[i]).folder),
{
    let stack = pending(folders, 0, true);
    assert forall|i: int| 0 <= i < stack.len() implies all.contains((#[trigger] stack[i]).folder) by {
        assert(stack[i].folder == folders[folders.len() - 1 - i]);
    }
}

/// The tree shows no folder id twice and none that the account does not have;
/// with every folder expanded it shows each of them, so that not even a cycle
/// makes a folder disappear.
pub proof fn law_tree_shows_each_folder_once(all: Seq<MailFolderView>, expanded: Seq<Seq<char>>)
    ensures
        row_ids(tree_rows(all, expanded)).no_duplicates(),
        forall|id: Seq<char>| #[trigger] row_ids(tree_rows(all, expanded)).contains(id) ==> all.any(has_id(id)),
        (forall|i: int| 0 <= i < all.len() ==> expanded.contains((#[trigger] all[i]).id)) ==> forall|i: int|
            0 <= i < all.len() ==> row_ids(tree_rows(all, expanded)).contains((#[trigger] all[i]).id),
{
    broadcast use vstd::seq_lib::to_multiset_contains;

    let top = pending(roots(all), 0, true);
    let (rows, orphans) = walk(all, expanded, top, all);
    let sorted = stable_sort(orphans, folder_le());
    let second = pending(sorted, 0, true);
    let (more, after) = walk(all, expanded, second, orphans);
    lemma_walk(all, expanded, top, all);
    lemma_walk(all, expanded, second, orphans);
    crate::lists::lemma_stable_sort(orphans, folder_le());
    let ids = row_ids(tree_rows(all, expanded));
    assert(ids =~= row_ids(rows) + row_ids(more));
    assert forall|id: Seq<char>| #[trigger] ids.contains(id) <==> row_ids(rows).contains(id) || row_ids(more).contains(
        id,
    ) by {
        let a = row_ids(rows);
        let b = row_ids(more);
        if a.contains(id) {
            let k = choose|k: int| 0 <= k < a.len() && a[k] == id;
            assert(ids[k] == id);
        }
        if b.contains(id) {
            let k = choose|k: int| 0 <= k < b.len() && b[k] == id;
            assert(ids[a.len() + k] == id);
        }
        if ids.contains(id) {
            let k = choose|k: int| 0 <= k < ids.len() && ids[k] == id;
            if k < a.len() {
                assert(a[k] == id);
            } else {
                assert(b[k - a.len()] == id);
            }
        }
    }
    assert forall|i: int, j: int| 0 <= i < j < ids.len() implies ids[i] != ids[j] by {
        let a = row_ids(rows);
        let b = row_ids(more);
        if j < a.len() {
            assert(a[i] != a[j]);
        } else if i >= a.len() {
            assert(b[i - a.len()] != b[j - a.len()]);
        } else {
            assert(a.contains(ids[i]));
            assert(!orphans.any(has_id(ids[i])));
            assert(b[j - a.len()] == ids[j]);
            assert(b.contains(ids[j]));
        }
    }
    if forall|i: int| 0 <= i < all.len() ==> expanded.contains((#[trigger] all[i]).id) {
        lemma_sorted_filter_in_all(all, is_root(all));
        lemma_pending_in(roots(all), all);
        assert forall|j: int| 0 <= j < sorted.len() implies all.contains(#[trigger] sorted[j]) by {
            assert(sorted.contains(sorted[j]));
            assert(orphans.to_multiset().count(sorted[j]) > 0);
            assert(orphans.contains(sorted[j]));
            lemma_left_in_all(all, expanded, top, all, all);
        }
        lemma_pending_in(sorted, all);
        assert forall|i: int| 0 <= i < all.len() implies ids.contains((#[trigger] all[i]).id) by {
            let id = all[i].id;
            assert(has_id(id)(all[i]));
            assert(all.any(has_id(id)));
            assert(row_ids(rows).contains(id) || orphans.any(has_id(id)));
            if orphans.any(has_id(id)) {
                assert(row_ids(more).contains(id) || after.any(has_id(id)));
                let k = choose|k: int| 0 <= k < orphans.len() && has_id(id)(orphans[k]);
                assert(orphans.contains(orphans[k]));
                assert(sorted.to_multiset().count(orphans[k]) > 0);
                assert(sorted.contains(orphans[k]));
                let m = choose|m: int| 0 <= m < sorted.len() && sorted[m] == orphans[k];
                assert(second[sorted.len() - 1 - m].folder == sorted[m]);
                assert(!after.any(has_id(id)));
            }
        }
    }
}

/// A walk leaves only folders that it was given.
proof fn lemma_left_in_all(
    all: Seq<MailFolderView>,
    expanded: Seq<Seq<char>>,
    stack: Seq<PendingFolderView>,
    left: Seq<MailFolderView>,
    bound: Seq<MailFolderView>,
)
    requires
        forall|f: MailFolderView| #[trigger] left.contains(f) ==> bound.contains(f),
    ensures
        forall|f: MailFolderView|
            #[trigger] walk(all, expanded, stack, left).1.contains(f) ==> bound.contains(f),
    decreases left.len(), stack.len(),
{
    let result = walk(all, expanded, stack, left).1;
    if stack.len() == 0 {
        assert(result == left);
        assert forall|f: MailFolderView| #[trigger] result.contains(f) implies bound.contains(f) by {
            assert(left.contains(f));
        }
    } else {
        let next = stack.last();
        let id = next.folder.id;
        if !left.any(has_id(id)) {
            lemma_left_in_all(all, expanded, stack.drop_last(), left, bound);
            assert(result == walk(all, expanded, stack.drop_last(), left).1);
        } else {
            lemma_fewer_left(left, id);
            let below = pending(children(all, id), (next.depth + 1) as usize, next.shown && expanded.contains(id));
            let narrower = left.filter(other_id(id));
            assert forall|f: MailFolderView| #[trigger] narrower.contains(f) implies bound.contains(f) by {
                left.lemma_filter_contains_rev(other_id(id), f);
                assert(left.contains(f));
            }
            lemma_left_in_all(all, expanded, stack.drop_last() + below, narrower, bound);
            let (rows, unvisited) = walk(all, expanded, stack.drop_last() + below, narrower);
            assert(result == unvisited);
            assert forall|f: MailFolderView| #[trigger] result.contains(f) implies bound.contains(f) by {
                assert(walk(all, expanded, stack.drop_last() + below, narrower).1.contains(f));
            }
        }
    }
}

} // verus!
