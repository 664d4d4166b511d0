//! What every window needs.

use vstd::prelude::*;

verus! {

#[derive(Debug, Clone, Copy)]
pub struct BaseApiImpl;

impl BaseApiImpl {
    /// A fresh identifier.
    pub fn new_id(self) -> (id: String)
        ensures
            crate::ids::is_id_text(id@),
    {
        crate::ids::new_id()
    }
}

} // verus!
