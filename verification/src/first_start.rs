//! The first start of the application.

use vstd::prelude::*;

verus! {

#[derive(Debug)]
pub enum Error {
    /// The note of the first start could not be written.
    Write(String),
}

/// What is written on the first start: the version that started first.
pub open spec fn first_start_note(version: Seq<char>) -> Seq<char> {
    "{\"version\": \""@ + version + "\"}"@
}

pub fn first_start_content(version: &str) -> (content: String)
    ensures
        content@ == first_start_note(version@),
{
    let mut content = crate::text::joined("{\"version\": \"", version);
    crate::text::append(&mut content, "\"}");
    content
}

} // verus!
