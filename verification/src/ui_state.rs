//! What parts of the interface need to be drawn again, and the progress of a
//! folder scan.

use vstd::prelude::*;

verus! {

/// The progress of a scan of the user's folders.
#[derive(Debug, Clone, Default)]
pub struct ScanData {
    pub current_folder: i32,
    pub total_folders: i32,
    pub completed_chunks: i32,
    pub total_chunks: i32,
}

impl ScanData {
    pub open spec fn is_clear(&self) -> bool {
        self.current_folder == 0 && self.total_folders == 0 && self.completed_chunks == 0
            && self.total_chunks == 0
    }

    /// Resets every count to zero.
    pub fn clear(&mut self)
        ensures
            final(self).is_clear(),
    {
        self.current_folder = 0;
        self.total_folders = 0;
        self.completed_chunks = 0;
        self.total_chunks = 0;
    }
}

/// Which parts of the interface need to be drawn again.
#[derive(Debug, Clone, Default)]
pub struct RefreshUI {
    pub anime_list: bool,
    pub tracking_progress: bool,
    pub canvas: bool,
    pub no_internet: bool,
    pub scan_data: ScanData,
    pub errors: Vec<String>,
    pub loading_dialog: Option<String>,
}

impl RefreshUI {
    /// Nothing needs drawing: every flag is off, the scan counts are zero, and
    /// there are no errors and no loading message.
    pub fn clear(&mut self)
        ensures
            !final(self).anime_list,
            !final(self).tracking_progress,
            !final(self).canvas,
            !final(self).no_internet,
            final(self).scan_data.is_clear(),
            final(self).errors@.len() == 0,
            final(self).loading_dialog is None,
    {
        self.anime_list = false;
        self.tracking_progress = false;
        self.canvas = false;
        self.no_internet = false;
        self.scan_data.clear();
        self.errors.clear();
        self.loading_dialog = None;
    }
}

} // verus!
