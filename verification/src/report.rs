//! Reports of a guide's step.

use vstd::prelude::*;
use vstd::string::StrSliceExecFns;

verus! {

#[derive(Debug)]
pub enum Error {
    Server(String),
    Status(u16, String),
}

/// A report as the user makes it.
#[derive(Debug, Clone)]
pub struct ReportPayload {
    pub username: Option<String>,
    pub content: String,
    pub step: u32,
    pub guide_id: u32,
}

/// A report as it is sent.
#[derive(Debug, Clone)]
pub struct ReportApiPayload {
    pub username: String,
    pub content: String,
    pub step: u32,
    pub guide_id: u32,
}

/// How many characters of a user's name are sent at most.
pub const USERNAME_LIMIT: usize = 255;

/// The name under which a report is sent: the user's, cut after the 255th
/// character; "Anonyme" for a user without a name.
pub open spec fn sent_username(username: Option<Seq<char>>) -> Seq<char> {
    let name = match username {
        Some(name) => name,
        None => "Anonyme"@,
    };
    if name.len() <= USERNAME_LIMIT {
        name
    } else {
        name.take(USERNAME_LIMIT as int)
    }
}

impl ReportApiPayload {
    pub fn from(value: ReportPayload) -> (payload: Self)
        ensures
            payload.username@ == sent_username(crate::conf::text_view(value.username)),
            payload.content == value.content,
            payload.step == value.step,
            payload.guide_id == value.guide_id,
    {
        let name = match value.username {
            Some(name) => name,
            None => "Anonyme".to_string(),
        };
        let length = name.as_str().unicode_len();
        let username = if length <= USERNAME_LIMIT {
            name
        } else {
            let cut = name.as_str().substring_char(0, USERNAME_LIMIT).to_string();
            assert(name@.take(USERNAME_LIMIT as int) =~= name@.subrange(0, USERNAME_LIMIT as int));
            cut
        };
        ReportApiPayload {
            username,
            content: value.content,
            step: value.step,
            guide_id: value.guide_id,
        }
    }
}

/// The failure of a report that the server did not accept: its status,
/// or 500 where the failure names none, and what went wrong.
pub fn report_failure(status: Option<u16>, detail: String) -> (error: Error)
    ensures
        error == Error::Status(
            match status {
                Some(code) => code,
                None => 500,
            },
            detail,
        ),
{
    match status {
        Some(code) => Error::Status(code, detail),
        None => Error::Status(500, detail),
    }
}

} // verus!
