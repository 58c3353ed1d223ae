use vstd::prelude::*;
use crate::text::{copy_texts, texts};

verus! {

/// An ordered list of match rules. The order is significant: the first rule
/// that matches decides.
pub struct Rules(Vec<String>);

impl View for Rules {
    type V = Seq<Seq<char>>;

    closed spec fn view(&self) -> Seq<Seq<char>> {
        texts(self.0@)
    }
}

impl Rules {
    pub fn new(rules: Vec<String>) -> (r: Self)
        ensures
            r@ == texts(rules@),
    {
        Rules(rules)
    }

    /// Puts the rules of `from` in front of those already held.
    pub fn insert_head(&mut self, from: Vec<String>) -> (r: &mut Self)
        ensures
            r@ == texts(from@) + old(self)@,
            *final(self) == *final(r),
    {
        let mut head = from;
        head.append(&mut self.0);
        assert(texts(head@) =~= texts(from@) + old(self)@);
        self.0 = head;
        self
    }

    pub fn get_element(&self) -> (r: Vec<String>)
        ensures
            texts(r@) == self@,
    {
        copy_texts(&self.0)
    }

    pub fn len(&self) -> (n: usize)
        ensures
            n == self@.len(),
    {
        self.0.len()
    }

    /// Puts the rules of `from` behind those already held.
    pub fn append(&mut self, from: Vec<String>) -> (r: &mut Self)
        ensures
            r@ == old(self)@ + texts(from@),
            *final(self) == *final(r),
    {
        let mut tail = from;
        self.0.append(&mut tail);
        assert(texts(self.0@) =~= old(self)@ + texts(from@));
        self
    }
}

impl Clone for Rules {
    fn clone(&self) -> (r: Self)
        ensures
            r@ == self@,
    {
        Rules(copy_texts(&self.0))
    }
}

} // verus!
