use vstd::prelude::*;

verus! {

/// What a word is, in mathematical terms: its language code, its written
/// form and its part of speech.
pub struct WordModel {
    pub lang: Seq<char>,
    pub name: Seq<char>,
    pub pos: Seq<char>,
}

/// The word in which nothing has been filled in yet.
pub open spec fn empty_word() -> WordModel {
    WordModel { lang: Seq::empty(), name: Seq::empty(), pos: Seq::empty() }
}

/// A word of the graph: the language it belongs to, its written form
/// (`name`) and its part of speech (`pos`).
#[derive(Debug, Clone, PartialEq, Eq)]
pub struct Word {
    pub lang: String,
    pub name: String,
    pub pos: String,
}

impl View for Word {
    type V = WordModel;

    open spec fn view(&self) -> WordModel {
        WordModel { lang: self.lang@, name: self.name@, pos: self.pos@ }
    }
}

impl DeepView for Word {
    type V = WordModel;

    open spec fn deep_view(&self) -> WordModel {
        self@
    }
}

impl Word {
    /// A word whose three fields are empty.
    pub fn new() -> (w: Word)
        ensures
            w@ == empty_word(),
    {
        Word { lang: String::new(), name: String::new(), pos: String::new() }
    }
}

} // verus!
