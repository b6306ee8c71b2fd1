//! The plain shapes the download-engine integration reports through. The
//! engine itself is an external collaborator; only the data it hands the
//! caller is modelled here.

use vstd::prelude::*;

verus! {

/// What starting a download returns: the task and where it writes.
pub struct TorrentStartResponse {
    pub id: usize,
    pub info_hash: String,
    pub name: Option<String>,
    pub output_folder: String,
    pub final_folder: String,
}

/// A download task's progress report.
pub struct TorrentStatusResponse {
    pub id: usize,
    pub state: String,
    pub progress_bytes: u64,
    pub total_bytes: u64,
    pub uploaded_bytes: u64,
    pub finished: bool,
    pub error: Option<String>,
    pub download_speed: Option<String>,
    pub upload_speed: Option<String>,
    pub time_remaining: Option<String>,
}

} // verus!
