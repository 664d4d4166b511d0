//! Images fetched for the window.

use vstd::prelude::*;

verus! {

#[derive(Debug)]
pub enum Error {
    RequestImage(String),
    ConvertToBytes(String),
}

} // verus!
