//! The account that is logged in.

use vstd::prelude::*;

verus! {

#[derive(Debug)]
pub enum Error {
    TokensNotFound,
    NotConnected,
    FailedToGetUser(String),
    InvalidUserResponse(String),
}

#[derive(Debug, Clone)]
pub struct User {
    pub id: u32,
    pub name: String,
    pub is_admin: u8,
    pub is_certified: u8,
    pub lang: String,
}

/// Judges the answer to the request for the account: an answer that comes
/// from the login page means that the session is over; any other answer's
/// text is handed on.
pub fn judge_me_answer(url: &str, body: Result<String, String>) -> (result: Result<String, Error>)
    ensures
        match result {
            Ok(text) => !crate::text::text_ends_with(url@, "/login"@) && body == Ok::<
                String,
                String,
            >(text),
            Err(Error::NotConnected) => crate::text::text_ends_with(url@, "/login"@),
            Err(Error::FailedToGetUser(text)) => !crate::text::text_ends_with(url@, "/login"@)
                && body is Err && text@ == "reading response text: "@ + body->Err_0@,
            Err(_) => false,
        },
{
    if crate::sync::is_login_redirect(url) {
        return Err(Error::NotConnected);
    }
    match body {
        Ok(text) => Ok(text),
        Err(why) => Err(
            Error::FailedToGetUser(crate::text::joined("reading response text: ", why.as_str())),
        ),
    }
}

} // verus!
