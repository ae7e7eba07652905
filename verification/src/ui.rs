//! Consumer-side interface state.
//!
//! The interactive side never touches the filesystem: it drains a scan
//! session's events opportunistically and folds them into this state, one
//! event at a time, while the unverified shell does the drawing, the channel
//! polling, and the actual deletion.

use crate::scanner::ScanEvent;
use crate::utils::ScanTarget;
use vstd::prelude::*;

verus! {

/// What the interface shows: the folder list accumulated from the current
/// scan, the selected root, and the pending delete-confirmation, if any.
pub struct AppDataCleaner {
    pub is_scanning: bool,
    pub current_folder: Option<String>,
    pub folder_data: Vec<(String, u64)>,
    pub show_about_window: bool,
    pub confirm_delete: Option<(String, bool)>,
    pub selected_target: ScanTarget,
}

impl Default for AppDataCleaner {
    /// A fresh interface: nothing scanned yet, the local root selected.
    fn default() -> (cleaner: Self)
        ensures
            !cleaner.is_scanning,
            cleaner.current_folder is None,
            cleaner.folder_data@ == Seq::<(String, u64)>::empty(),
            !cleaner.show_about_window,
            cleaner.confirm_delete is None,
            cleaner.selected_target is Local,
    {
        AppDataCleaner {
            is_scanning: false,
            current_folder: None,
            folder_data: Vec::new(),
            show_about_window: false,
            confirm_delete: None,
            selected_target: ScanTarget::Local,
        }
    }
}

impl AppDataCleaner {
    /// Record the root chosen from the menu; the shell then starts a fresh
    /// scan session for it.
    pub fn set_target(&mut self, target: ScanTarget)
        ensures
            final(self).selected_target == target,
            final(self).is_scanning == old(self).is_scanning,
            final(self).current_folder == old(self).current_folder,
            final(self).folder_data == old(self).folder_data,
            final(self).show_about_window == old(self).show_about_window,
            final(self).confirm_delete == old(self).confirm_delete,
    {
        self.selected_target = target;
    }

    /// Remember a folder whose deletion now awaits the user's confirmation.
    pub fn request_delete(&mut self, folder: String)
        ensures
            final(self).confirm_delete == Some((folder, false)),
            final(self).selected_target == old(self).selected_target,
            final(self).is_scanning == old(self).is_scanning,
            final(self).current_folder == old(self).current_folder,
            final(self).folder_data == old(self).folder_data,
            final(self).show_about_window == old(self).show_about_window,
    {
        self.confirm_delete = Some((folder, false));
    }

    /// Fold one received scan event into the display state: a folder entry
    /// is appended to the list, the terminal marker ends the scan, and a
    /// progress update leaves the accumulated data untouched.
    pub fn apply_event(&mut self, event: ScanEvent)
        ensures
            final(self).is_scanning == (old(self).is_scanning && !(event is ScanOutcome)),
            event matches ScanEvent::FolderEntry { name, size_bytes } ==> final(self).folder_data@
                == old(self).folder_data@.push((name, size_bytes)),
            !(event is FolderEntry) ==> final(self).folder_data == old(self).folder_data,
            final(self).current_folder == old(self).current_folder,
            final(self).show_about_window == old(self).show_about_window,
            final(self).confirm_delete == old(self).confirm_delete,
            final(self).selected_target == old(self).selected_target,
    {
        match event {
            ScanEvent::FolderEntry { name, size_bytes } => {
                self.folder_data.push((name, size_bytes));
            },
            ScanEvent::ProgressEvent { .. } => {},
            ScanEvent::ScanOutcome => {
                self.is_scanning = false;
            },
        }
    }

    /// Settle a pending delete-confirmation with the dialog's answer, if the
    /// user gave one this tick. Returns the folder whose deletion was
    /// confirmed; the unverified shell performs the deletion itself.
    pub fn resolve_confirmation(&mut self, response: Option<bool>) -> (to_delete: Option<String>)
        ensures
            final(self).is_scanning == old(self).is_scanning,
            final(self).current_folder == old(self).current_folder,
            final(self).folder_data == old(self).folder_data,
            final(self).show_about_window == old(self).show_about_window,
            final(self).selected_target == old(self).selected_target,
            match (old(self).confirm_delete, response) {
                (Some((folder, flag)), Some(answer)) => final(self).confirm_delete is None
                    && to_delete == (if answer {
                    Some(folder)
                } else {
                    None::<String>
                }),
                _ => final(self).confirm_delete == old(self).confirm_delete && to_delete is None,
            },
    {
        let mut to_delete: Option<String> = None;
        if let Some(answer) = response {
            let pending = match &self.confirm_delete {
                Some((folder, _)) => Some(folder.clone()),
                None => None,
            };
            if let Some(folder) = pending {
                self.confirm_delete = None;
                if answer {
                    to_delete = Some(folder);
                }
            }
        }
        to_delete
    }
}

} // verus!
