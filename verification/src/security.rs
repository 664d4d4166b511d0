//! The sites that a guide may link to.

use vstd::prelude::*;

verus! {

/// The sites that a guide may link to.
pub const VALID_LINKS: [&'static str; 33] = [
        "https://dofuspourlesnoobs.com",
        "https://www.dofuspourlesnoobs.com",
        "https://huzounet.fr",
        "https://dofusbook.net",
        "https://www.dofusbook.net",
        "https://ganymede-app.com",
        "https://ganymede-dofus.com",
        "https://dofus-portals.fr",
        "https://youtube.com",
        "https://www.youtube.com",
        "https://youtu.be",
        "https://twitter.com",
        "https://x.com",
        "https://dofus.com",
        "https://www.dofus.com",
        "https://www.twitch.tv",
        "https://twitch.tv",
        "https://metamob.fr",
        "https://dofusdb.fr",
        "https://barbofus.com",
        "https://dofensive.com",
        "https://www.dofuskin.com",
        "https://dofuskin.com",
        "https://docs.google.com",
        "https://dofustool.com",
        "https://www.dofustool.com",
        "https://krosmoz.com",
        "https://www.krosmoz.com",
        "https://gamosaurus.com",
        "https://www.gamosaurus.com",
        "https://comteharebourg.com",
        "https://www.comteharebourg.com",
        "https://d-bk.net",
    ];

#[derive(Debug, Clone, Copy)]
pub struct SecurityApiImpl;

impl SecurityApiImpl {
    /// The list of the sites, as owned texts.
    pub fn get_white_list(self) -> (result: Result<Vec<String>, ()>)
        ensures
            result matches Ok(list) && list.len() == 33 && forall|i: int|
                0 <= i < 33 ==> (#[trigger] list[i])@ == VALID_LINKS[i]@,
    {
        let mut list: Vec<String> = Vec::new();
        let mut i: usize = 0;
        while i < 33
            invariant
                i <= 33,
                list.len() == i,
                forall|j: int| 0 <= j < i ==> (#[trigger] list[j])@ == VALID_LINKS[j]@,
            decreases 33 - i,
        {
            list.push(VALID_LINKS[i].to_string());
            i += 1;
        }
        Ok(list)
    }
}

} // verus!
