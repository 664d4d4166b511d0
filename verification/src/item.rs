//! Items of the game, named in each language.

use vstd::prelude::*;

use crate::conf::ConfLang;

verus! {

#[derive(Debug, Clone)]
pub struct ItemName {
    pub fr: String,
    pub en: String,
    pub es: String,
    pub pt: String,
}

#[derive(Debug, Clone)]
pub struct Item {
    pub name: ItemName,
    pub img: Option<String>,
}

/// The item's name in the language `lang`.
pub open spec fn item_name(item: Item, lang: ConfLang) -> Seq<char> {
    match lang {
        ConfLang::En => item.name.en@,
        ConfLang::Es => item.name.es@,
        ConfLang::Pt => item.name.pt@,
        ConfLang::Fr => item.name.fr@,
    }
}

impl Item {
    pub fn name(&self, lang: &ConfLang) -> (name: &str)
        ensures
            name@ == item_name(*self, *lang),
    {
        match lang {
            ConfLang::En => self.name.en.as_str(),
            ConfLang::Es => self.name.es.as_str(),
            ConfLang::Pt => self.name.pt.as_str(),
            ConfLang::Fr => self.name.fr.as_str(),
        }
    }
}

} // verus!
