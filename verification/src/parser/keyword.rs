use vstd::prelude::*;
use crate::text::{copy_texts, texts};

verus! {

/// The keywords by which a subscription's groups are screened.
pub struct Keyword {
    filter: Vec<String>,
    accepted: Vec<String>,
}

/// What a `Keyword` holds.
pub struct KeywordView {
    pub filter: Seq<Seq<char>>,
    pub accepted: Seq<Seq<char>>,
}

impl View for Keyword {
    type V = KeywordView;

    closed spec fn view(&self) -> KeywordView {
        KeywordView { filter: texts(self.filter@), accepted: texts(self.accepted@) }
    }
}

impl Keyword {
    pub fn new(filter: Vec<String>, accepted: Vec<String>) -> (r: Self)
        ensures
            r@ == (KeywordView { filter: texts(filter@), accepted: texts(accepted@) }),
    {
        Keyword { filter, accepted }
    }

    pub fn filter(&self) -> (r: &Vec<String>)
        ensures
            texts(r@) == self@.filter,
    {
        &self.filter
    }

    pub fn accepted(&self) -> (r: &Vec<String>)
        ensures
            texts(r@) == self@.accepted,
    {
        &self.accepted
    }
}

impl Clone for Keyword {
    fn clone(&self) -> (r: Self)
        ensures
            r@ == self@,
    {
        Keyword { filter: copy_texts(&self.filter), accepted: copy_texts(&self.accepted) }
    }
}

} // verus!
