//! Counting the installations.

use vstd::prelude::*;

use crate::text::text_equal;

verus! {

#[derive(Debug)]
pub enum AnalyticsError {
    OsNotFound,
    RequestDownloaded(String),
    DownloadedCount(String, String),
}

/// What is sent when an installation is counted.
#[derive(Debug, Clone)]
pub struct DownloadedBody {
    /// Sent under the name `uniqueID`.
    pub unique_id: String,
    pub version: String,
    pub os: String,
}

/// The server's name for an operating system.
pub open spec fn os_name(os: Seq<char>) -> Option<Seq<char>> {
    if os == "windows"@ {
        Some("Windows"@)
    } else if os == "macos"@ {
        Some("Mac_OS"@)
    } else if os == "linux"@ {
        Some("linux"@)
    } else {
        None
    }
}

pub fn os_to_string(os: String) -> (name: Option<String>)
    ensures
        crate::conf::text_view(name) == os_name(os@),
{
    if text_equal(os.as_str(), "windows") {
        Some("Windows".to_string())
    } else if text_equal(os.as_str(), "macos") {
        Some("Mac_OS".to_string())
    } else if text_equal(os.as_str(), "linux") {
        Some("linux".to_string())
    } else {
        None
    }
}

/// What is sent for the machine `id` running the version `version` on the
/// operating system `os`; fails where the server has no name for `os`.
pub fn downloaded_body(id: String, version: String, os: String) -> (result: Result<
    DownloadedBody,
    AnalyticsError,
>)
    ensures
        match os_name(os@) {
            Some(name) => result matches Ok(body) && body.unique_id == id && body.version
                == version && body.os@ == name,
            None => result matches Err(AnalyticsError::OsNotFound),
        },
{
    match os_to_string(os) {
        Some(os) => Ok(DownloadedBody { unique_id: id, version, os }),
        None => Err(AnalyticsError::OsNotFound),
    }
}

/// Judges the answer to the count: a status that is no success fails it,
/// with the status and what the server said.
pub fn judge_count_answer(code: u16, status: String, body: String) -> (result: Result<
    (),
    AnalyticsError,
>)
    ensures
        match result {
            Ok(_) => crate::sync::status_is_success(code),
            Err(AnalyticsError::DownloadedCount(s, b)) => !crate::sync::status_is_success(code)
                && s == status && b == body,
            Err(_) => false,
        },
{
    if crate::sync::is_success(code) {
        Ok(())
    } else {
        Err(AnalyticsError::DownloadedCount(status, body))
    }
}

} // verus!
