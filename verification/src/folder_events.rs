//! Events of folders and of messages that moved between them.
use crate::account_map::AccountMap;
use crate::app::{is_account, is_text, told};
use crate::lists::{first_index, map_each, position_where, retain_where, take_list};
use crate::model::{clone_list, AccountId, MailFolder, MailFolderView};
use crate::settings::{other_text, remove_text, AccountSettingsView, QuickAction, QuickActionView, Settings};
use crate::state::{AviaryApp, Effect, EffectView, MailboxState, ToastKind};
use vstd::prelude::*;

verus! {

/// Whether a folder has the given id.
pub open spec fn folder_named(id: Seq<char>) -> spec_fn(MailFolderView) -> bool {
    |folder: MailFolderView| folder.id == id
}

/// Whether a folder has another id.
pub open spec fn folder_other(id: Seq<char>) -> spec_fn(MailFolderView) -> bool {
    |folder: MailFolderView| folder.id != id
}

/// A folder whose parent has another id now.
pub open spec fn reparented(from: Seq<char>, to: Seq<char>) -> spec_fn(MailFolderView) -> MailFolderView {
    |folder: MailFolderView|
        if folder.parent_id == Some(from) {
            MailFolderView { parent_id: Some(to), ..folder }
        } else {
            folder
        }
}

/// The folders after the first one with id `id` got another name and another id; folders
/// below it follow.
pub open spec fn renamed_folders(
    folders: Seq<MailFolderView>,
    id: Seq<char>,
    new_id: Seq<char>,
    new_name: Seq<char>,
) -> Seq<MailFolderView> {
    (match first_index(folders, folder_named(id)) {
        Some(i) => folders.update(i, MailFolderView { id: new_id, display_name: new_name, ..folders[i] }),
        None => folders,
    }).map_values(reparented(id, new_id))
}

/// A text that takes the place of another.
pub open spec fn swapped(from: Seq<char>, to: Seq<char>) -> spec_fn(Seq<char>) -> Seq<char> {
    |text: Seq<char>|
        if text == from {
            to
        } else {
            text
        }
}

/// A quick action whose folder has another id now.
pub open spec fn moved_target(from: Seq<char>, to: Seq<char>) -> spec_fn(QuickActionView) -> QuickActionView {
    |action: QuickActionView|
        if action.move_to_folder_id == Some(from) {
            QuickActionView { move_to_folder_id: Some(to), ..action }
        } else {
            action
        }
}

/// Settings of an account after a folder got another id.
pub open spec fn with_renamed_folder(account: AccountSettingsView, from: Seq<char>, to: Seq<char>) -> AccountSettingsView {
    AccountSettingsView {
        pinned_folder_ids: account.pinned_folder_ids.map_values(swapped(from, to)),
        expanded_folder_ids: account.expanded_folder_ids.map_values(swapped(from, to)),
        quick_actions: account.quick_actions.map_values(moved_target(from, to)),
        ..account
    }
}

/// Settings of an account after a folder went away.
pub open spec fn without_folder(account: AccountSettingsView, id: Seq<char>) -> AccountSettingsView {
    AccountSettingsView {
        pinned_folder_ids: account.pinned_folder_ids.filter(other_text(id)),
        expanded_folder_ids: account.expanded_folder_ids.filter(other_text(id)),
        ..account
    }
}

/// The settings of one account became `account`; nothing else changed.
pub open spec fn account_set(before: Settings, after: Settings, id: Seq<char>, account: AccountSettingsView) -> bool {
    &&& after.account_view(id) == account
    &&& after.accounts@ == before.accounts@.insert(id, after.accounts@[id])
    &&& after.global == before.global
}

/// The folders of an account.
pub open spec fn folders_of(folders: AccountMap<Vec<MailFolder>>, id: Seq<char>) -> Seq<MailFolderView> {
    if folders@.contains_key(id) {
        folders@[id].deep_view()
    } else {
        Seq::empty()
    }
}

/// The folders of one account, if any were known, became `new`; those of others stay.
pub open spec fn known_folders_set(
    before: AccountMap<Vec<MailFolder>>,
    after: AccountMap<Vec<MailFolder>>,
    id: Seq<char>,
    new: Seq<MailFolderView>,
) -> bool {
    if before@.contains_key(id) {
        &&& after@ == before@.insert(id, after@[id])
        &&& after@[id].deep_view() == new
    } else {
        after == before
    }
}

/// Gives texts that are `from` the value `to`.
pub(crate) fn swap_text(texts: &mut Vec<String>, from: &String, to: &String)
    ensures
        final(texts).deep_view() == old(texts).deep_view().map_values(swapped(from@, to@)),
{
    let taken = take_list(texts);
    *texts = map_each(
        taken,
        |text: String| -> (mapped: String)
            ensures
                mapped.deep_view() == swapped(from@, to@)(text.deep_view())
            {
            if text == *from {
                to.clone()
            } else {
                text
            }
        },
        Ghost(swapped(from@, to@)),
    );
}

/// Gives a folder another name and id.
pub(crate) fn rename_folder(folders: &mut Vec<MailFolder>, id: &String, new_id: &String, new_name: &String)
    ensures
        final(folders).deep_view() == renamed_folders(old(folders).deep_view(), id@, new_id@, new_name@),
{
    let ghost before = folders.deep_view();
    let found = position_where(
        &*folders,
        |folder: &MailFolder| -> (same: bool)
            ensures
                same == (folder.deep_view().id == id@)
            { folder.id == *id },
        Ghost(folder_named(id@)),
    );
    if let Some(i) = found {
        assert(before[i as int] == folders[i as int].deep_view());
        let mut folder = folders[i].clone();
        folder.id = new_id.clone();
        folder.display_name = new_name.clone();
        let ghost shown = folder.deep_view();
        folders.set(i, folder);
        assert(folders.deep_view() =~= before.update(i as int, shown));
    }
    let taken = take_list(folders);
    *folders = map_each(
        taken,
        |folder: MailFolder| -> (mapped: MailFolder)
            ensures
                mapped.deep_view() == reparented(id@, new_id@)(folder.deep_view())
            {
            let mut folder = folder;
            if is_text(&folder.parent_id, id) {
                folder.parent_id = Some(new_id.clone());
            }
            folder
        },
        Ghost(reparented(id@, new_id@)),
    );
}

/// Drops a folder.
pub(crate) fn drop_folder(folders: &mut Vec<MailFolder>, id: &String)
    ensures
        final(folders).deep_view() == old(folders).deep_view().filter(folder_other(id@)),
{
    let taken = take_list(folders);
    *folders = retain_where(
        taken,
        |folder: &MailFolder| -> (keep: bool)
            ensures
                keep == (folder.deep_view().id != id@)
            { folder.id != *id },
        Ghost(folder_other(id@)),
    );
}

impl AviaryApp {
    /// Whether the folder on display is the given one.
    pub open spec fn shows_folder(self, account_id: Seq<char>, id: Seq<char>) -> bool {
        self.mailbox.selected_folder_id.deep_view() == Some(id) && self.mailbox.unified_selected_account.deep_view()
            == Some(account_id)
    }

    fn folder_on_display(&self, account_id: &AccountId, id: &String) -> (yes: bool)
        ensures
            yes == self.shows_folder(account_id.0@, id@),
    {
        is_text(&self.mailbox.selected_folder_id, id) && is_account(
            &self.mailbox.unified_selected_account,
            account_id,
        )
    }

    /// Whether an account is the current one.
    pub open spec fn is_current(self, id: Seq<char>) -> bool {
        self.current_account_id.deep_view() == Some(id)
    }

    /// What `on_folders` does.
    pub open spec fn folders_handled(self, after: AviaryApp, account_id: AccountId, folders: Vec<MailFolder>) -> bool {
        &&& after.mailbox.folders_by_account@ == self.mailbox.folders_by_account@.insert(
            account_id.0@,
            folders,
        )
        &&& if self.is_current(account_id.0@) {
            after.mailbox.folders.deep_view() == folders.deep_view()
        } else {
            after.mailbox.folders == self.mailbox.folders
        }
        &&& after == (AviaryApp {
            mailbox: MailboxState {
                folders: after.mailbox.folders,
                folders_by_account: after.mailbox.folders_by_account,
                ..self.mailbox
            },
            ..self
        })
    }

    /// The folders of an account came.
    pub fn on_folders(&mut self, account_id: AccountId, folders: Vec<MailFolder>)
        ensures
            old(self).folders_handled(*final(self), account_id, folders),
    {
        if is_account(&self.current_account_id, &account_id) {
            self.mailbox.folders = clone_list(&folders);
        }
        self.mailbox.folders_by_account.insert(account_id, folders);
    }

    /// What `on_folder_created` does.
    pub open spec fn folder_created_handled(self, after: AviaryApp, account_id: AccountId, folder: MailFolder) -> bool {
        &&& after.mailbox.folders_by_account@ == self.mailbox.folders_by_account@.insert(
            account_id.0@,
            after.mailbox.folders_by_account@[account_id.0@],
        )
        &&& after.mailbox.folders_by_account@[account_id.0@].deep_view() == folders_of(
            self.mailbox.folders_by_account,
            account_id.0@,
        ).push(folder.deep_view())
        &&& if self.is_current(account_id.0@) {
            after.mailbox.folders.deep_view() == self.mailbox.folders.deep_view().push(
                folder.deep_view(),
            )
        } else {
            after.mailbox.folders == self.mailbox.folders
        }
        &&& after.asked(
            self,
            seq![
                told(ToastKind::Success, "toast-folder-created"@),
                EffectView::LoadFolders { account_id: account_id.0@ },
            ],
        )
        &&& after == (AviaryApp {
            mailbox: MailboxState {
                folders: after.mailbox.folders,
                folders_by_account: after.mailbox.folders_by_account,
                ..self.mailbox
            },
            effects: after.effects,
            ..self
        })
    }

    /// A folder was created.
    pub fn on_folder_created(&mut self, account_id: AccountId, folder: MailFolder)
        ensures
            old(self).folder_created_handled(*final(self), account_id, folder),
    {
        let ghost start = *self;
        let ghost shown = folder.deep_view();
        if is_account(&self.current_account_id, &account_id) {
            let ghost before = self.mailbox.folders.deep_view();
            self.mailbox.folders.push(folder.clone());
            assert(self.mailbox.folders.deep_view() =~= before.push(shown));
        }
        let ghost table = self.mailbox.folders_by_account@;
        let mut known: Vec<MailFolder> = match self.mailbox.folders_by_account.remove(&account_id) {
            Some(folders) => folders,
            None => Vec::new(),
        };
        let ghost before = known.deep_view();
        assert(before =~= folders_of(start.mailbox.folders_by_account, account_id.0@));
        known.push(folder);
        assert(known.deep_view() =~= before.push(shown));
        self.mailbox.folders_by_account.insert(account_id.clone(), known);
        assert(self.mailbox.folders_by_account@ =~= table.insert(
            account_id.0@,
            self.mailbox.folders_by_account@[account_id.0@],
        ));
        self.tell(ToastKind::Success, "toast-folder-created");
        let ghost middle = *self;
        self.send(Effect::LoadFolders { account_id });
        proof {
            let first = seq![told(ToastKind::Success, "toast-folder-created"@)];
            let second = seq![EffectView::LoadFolders { account_id: account_id.0@ }];
            AviaryApp::lemma_asked(start, middle, *self, first, second);
            assert(first + second =~= seq![
                told(ToastKind::Success, "toast-folder-created"@),
                EffectView::LoadFolders { account_id: account_id.0@ },
            ]);
        }
    }

    /// Follows a folder to its new id in the settings of its account.
    fn rename_in_settings(&mut self, account_id: &AccountId, id: &String, new_id: &String)
        ensures
            account_set(
                old(self).settings,
                final(self).settings,
                account_id.0@,
                with_renamed_folder(old(self).settings.account_view(account_id.0@), id@, new_id@),
            ),
            *final(self) == (AviaryApp { settings: final(self).settings, ..*old(self) }),
    {
        let account = self.settings.account_mut(account_id);
        let ghost before = account.deep_view();
        swap_text(&mut account.pinned_folder_ids, id, new_id);
        swap_text(&mut account.expanded_folder_ids, id, new_id);
        let taken = take_list(&mut account.quick_actions);
        account.quick_actions = map_each(
            taken,
            |action: QuickAction| -> (mapped: QuickAction)
                ensures
                    mapped.deep_view() == moved_target(id@, new_id@)(action.deep_view())
                {
                let mut action = action;
                if is_text(&action.move_to_folder_id, id) {
                    action.move_to_folder_id = Some(new_id.clone());
                }
                action
            },
            Ghost(moved_target(id@, new_id@)),
        );
        assert(account.deep_view() == with_renamed_folder(before, id@, new_id@));
    }

    /// What is asked for when a folder was renamed.
    pub open spec fn rename_asks(self, account_id: Seq<char>, id: Seq<char>) -> Seq<EffectView> {
        if self.shows_folder(account_id, id) {
            seq![
                EffectView::SaveSettings,
                EffectView::LoadFolders { account_id },
                EffectView::SendRefresh,
                EffectView::SyncAutoRefresh,
            ]
        } else {
            seq![EffectView::SaveSettings, EffectView::LoadFolders { account_id }]
        }
    }

    /// What `on_folder_renamed` does.
    pub open spec fn folder_renamed_handled(self, after: AviaryApp, account_id: AccountId, id: String, new_id: Option<String>, new_name: String) -> bool {
        let to = match new_id {
            Some(new_id) => new_id@,
            None => id@,
        };
        &&& known_folders_set(
            self.mailbox.folders_by_account,
            after.mailbox.folders_by_account,
            account_id.0@,
            renamed_folders(
                folders_of(self.mailbox.folders_by_account, account_id.0@),
                id@,
                to,
                new_name@,
            ),
        )
        &&& if self.is_current(account_id.0@) {
            after.mailbox.folders.deep_view() == renamed_folders(
                self.mailbox.folders.deep_view(),
                id@,
                to,
                new_name@,
            )
        } else {
            after.mailbox.folders == self.mailbox.folders
        }
        &&& account_set(
            self.settings,
            after.settings,
            account_id.0@,
            with_renamed_folder(self.settings.account_view(account_id.0@), id@, to),
        )
        &&& after.mailbox.selected_folder_id.deep_view() == (if self.shows_folder(
            account_id.0@,
            id@,
        ) {
            Some(to)
        } else {
            self.mailbox.selected_folder_id.deep_view()
        })
        &&& after.asked(self, self.rename_asks(account_id.0@, id@))
        &&& after == (AviaryApp {
            settings: after.settings,
            mailbox: MailboxState {
                folders: after.mailbox.folders,
                folders_by_account: after.mailbox.folders_by_account,
                selected_folder_id: after.mailbox.selected_folder_id,
                ..self.mailbox
            },
            effects: after.effects,
            ..self
        })
    }

    /// A folder was renamed, and may have another id now: the tree, the settings of its
    /// account and the folder on display follow.
    pub fn on_folder_renamed(&mut self, account_id: AccountId, id: String, new_id: Option<String>, new_name: String)
        ensures
            old(self).folder_renamed_handled(*final(self), account_id, id, new_id, new_name),
    {
        let ghost start = *self;
        let selected = self.folder_on_display(&account_id, &id);
        let effective: String = match new_id {
            Some(new_id) => new_id,
            None => id.clone(),
        };
        if let Some(folders) = self.mailbox.folders_by_account.get_mut(&account_id) {
            rename_folder(folders, &id, &effective, &new_name);
        }
        if is_account(&self.current_account_id, &account_id) {
            rename_folder(&mut self.mailbox.folders, &id, &effective, &new_name);
        }
        self.rename_in_settings(&account_id, &id, &effective);
        if selected {
            self.mailbox.selected_folder_id = Some(effective);
        }
        self.ask_after_rename(&account_id, selected);
    }

    /// Asks for what a renamed folder needs.
    fn ask_after_rename(&mut self, account_id: &AccountId, selected: bool)
        ensures
            final(self).asked(
                *old(self),
                if selected {
                    seq![
                        EffectView::SaveSettings,
                        EffectView::LoadFolders { account_id: account_id.0@ },
                        EffectView::SendRefresh,
                        EffectView::SyncAutoRefresh,
                    ]
                } else {
                    seq![EffectView::SaveSettings, EffectView::LoadFolders { account_id: account_id.0@ }]
                },
            ),
            *final(self) == (AviaryApp { effects: final(self).effects, ..*old(self) }),
    {
        let ghost start = self.effects.deep_view();
        self.send(Effect::SaveSettings);
        self.send(Effect::LoadFolders { account_id: account_id.clone() });
        if selected {
            self.send(Effect::SendRefresh);
            self.send(Effect::SyncAutoRefresh);
            assert(self.effects.deep_view() =~= start + seq![
                EffectView::SaveSettings,
                EffectView::LoadFolders { account_id: account_id.0@ },
                EffectView::SendRefresh,
                EffectView::SyncAutoRefresh,
            ]);
        } else {
            assert(self.effects.deep_view() =~= start + seq![
                EffectView::SaveSettings,
                EffectView::LoadFolders { account_id: account_id.0@ },
            ]);
        }
    }

    /// What `on_folder_deleted` does.
    pub open spec fn folder_deleted_handled(self, after: AviaryApp, account_id: AccountId, id: String) -> bool {
        &&& known_folders_set(
            self.mailbox.folders_by_account,
            after.mailbox.folders_by_account,
            account_id.0@,
            folders_of(self.mailbox.folders_by_account, account_id.0@).filter(folder_other(id@)),
        )
        &&& account_set(
            self.settings,
            after.settings,
            account_id.0@,
            without_folder(self.settings.account_view(account_id.0@), id@),
        )
        &&& if self.is_current(account_id.0@) {
            after.mailbox.folders.deep_view() == self.mailbox.folders.deep_view().filter(
                folder_other(id@),
            )
        } else {
            after.mailbox.folders == self.mailbox.folders
        }
        &&& after.asked(
            self,
            if self.shows_folder(account_id.0@, id@) {
                seq![
                    EffectView::SaveSettings,
                    EffectView::SendRefresh,
                    EffectView::LoadFolders { account_id: account_id.0@ },
                ]
            } else {
                seq![EffectView::SaveSettings, EffectView::LoadFolders { account_id: account_id.0@ }]
            },
        )
        &&& after == (AviaryApp {
            settings: after.settings,
            mailbox: MailboxState {
                folders: after.mailbox.folders,
                folders_by_account: after.mailbox.folders_by_account,
                selected_folder_id: if self.shows_folder(account_id.0@, id@) {
                    None
                } else {
                    self.mailbox.selected_folder_id
                },
                ..self.mailbox
            },
            effects: after.effects,
            ..self
        })
    }

    /// A folder was deleted. What the provider did with the folders below it, the tree
    /// that is asked for tells.
    pub fn on_folder_deleted(&mut self, account_id: AccountId, id: String)
        ensures
            old(self).folder_deleted_handled(*final(self), account_id, id),
    {
        let ghost start = self.effects.deep_view();
        if let Some(folders) = self.mailbox.folders_by_account.get_mut(&account_id) {
            drop_folder(folders, &id);
        }
        let account = self.settings.account_mut(&account_id);
        let ghost before = account.deep_view();
        remove_text(&mut account.pinned_folder_ids, &id);
        remove_text(&mut account.expanded_folder_ids, &id);
        assert(account.deep_view() == without_folder(before, id@));
        self.send(Effect::SaveSettings);
        if is_account(&self.current_account_id, &account_id) {
            drop_folder(&mut self.mailbox.folders, &id);
        }
        if self.folder_on_display(&account_id, &id) {
            self.mailbox.selected_folder_id = None;
            self.send(Effect::SendRefresh);
            self.send(Effect::LoadFolders { account_id });
            assert(self.effects.deep_view() =~= start + seq![
                EffectView::SaveSettings,
                EffectView::SendRefresh,
                EffectView::LoadFolders { account_id: account_id.0@ },
            ]);
        } else {
            self.send(Effect::LoadFolders { account_id });
            assert(self.effects.deep_view() =~= start + seq![
                EffectView::SaveSettings,
                EffectView::LoadFolders { account_id: account_id.0@ },
            ]);
        }
    }
}

/// A folder that was renamed keeps its place in the tree: the folders below it are still
/// below it, and no other folder changes.
pub proof fn law_renaming_keeps_the_tree(
    folders: Seq<MailFolderView>,
    id: Seq<char>,
    new_id: Seq<char>,
    new_name: Seq<char>,
    i: int,
)
    requires
        0 <= i < folders.len(),
    ensures
        renamed_folders(folders, id, new_id, new_name).len() == folders.len(),
        folders[i].parent_id == Some(id) ==> renamed_folders(folders, id, new_id, new_name)[i].parent_id == Some(
            new_id,
        ),
        folders[i].parent_id != Some(id) ==> renamed_folders(folders, id, new_id, new_name)[i].parent_id
            == folders[i].parent_id,
        folders[i].id != id && folders[i].parent_id != Some(id) ==> renamed_folders(folders, id, new_id, new_name)[i]
            == folders[i],
{
    crate::lists::lemma_first_index(folders, folder_named(id));
}

} // verus!
