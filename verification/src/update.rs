//! Updates of the application.

use vstd::prelude::*;

verus! {

#[derive(Debug)]
pub enum Error {
    CheckUpdateError(String),
    GetUpdaterError(String),
}

/// How far the download of an update has come.
#[derive(Debug, Clone, Copy, PartialEq, Eq, Structural)]
pub struct DownloadProgress {
    pub downloaded: usize,
}

impl DownloadProgress {
    pub fn new() -> (progress: Self)
        ensures
            progress.downloaded == 0,
    {
        DownloadProgress { downloaded: 0 }
    }

    /// Counts a chunk of `chunk_length` bytes and returns how many bytes
    /// have come in all. The count stays at the largest number where it
    /// would pass it.
    pub fn add_chunk(&mut self, chunk_length: usize) -> (downloaded: usize)
        ensures
            downloaded == final(self).downloaded,
            final(self).downloaded == if old(self).downloaded + chunk_length <= usize::MAX {
                (old(self).downloaded + chunk_length) as usize
            } else {
                usize::MAX
            },
    {
        self.downloaded = self.downloaded.saturating_add(chunk_length);
        self.downloaded
    }
}

} // verus!
