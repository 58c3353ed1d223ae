use vstd::prelude::*;
use crate::parser::share_config::{override_view, OverridableValue, OverridableValueView};
use crate::text::opt_view;

verus! {

/// One subscription of the local configuration: the id under which clients
/// ask for it, where it is fetched from, and what is put in place of its
/// quota figures.
pub struct UpStream {
    sub_id: String,
    upstream: String,
    raw: Option<String>,
    sub_override: Option<OverridableValue>,
}

/// What an `UpStream` holds.
pub struct UpStreamView {
    pub sub_id: Seq<char>,
    pub upstream: Seq<char>,
    pub raw: Option<Seq<char>>,
    pub sub_override: Option<OverridableValueView>,
}

impl View for UpStream {
    type V = UpStreamView;

    closed spec fn view(&self) -> UpStreamView {
        UpStreamView {
            sub_id: self.sub_id@,
            upstream: self.upstream@,
            raw: opt_view(self.raw),
            sub_override: override_view(self.sub_override),
        }
    }
}

impl UpStream {
    pub fn new(
        sub_id: String,
        upstream: String,
        raw: Option<String>,
        sub_override: Option<OverridableValue>,
    ) -> (r: Self)
        ensures
            r@ == (UpStreamView {
                sub_id: sub_id@,
                upstream: upstream@,
                raw: opt_view(raw),
                sub_override: override_view(sub_override),
            }),
    {
        UpStream { sub_id, upstream, raw, sub_override }
    }

    pub fn sub_id(&self) -> (r: &str)
        ensures
            r@ == self@.sub_id,
    {
        self.sub_id.as_str()
    }

    pub fn upstream(&self) -> (r: &str)
        ensures
            r@ == self@.upstream,
    {
        self.upstream.as_str()
    }

    pub fn raw(&self) -> (r: Option<&String>)
        ensures
            r is Some == self@.raw is Some,
            r is Some ==> r->0@ == self@.raw->0,
    {
        self.raw.as_ref()
    }

    pub fn sub_override(&self) -> (r: Option<OverridableValue>)
        ensures
            override_view(r) == self@.sub_override,
    {
        self.sub_override
    }
}

impl Clone for UpStream {
    fn clone(&self) -> (r: Self)
        ensures
            r@ == self@,
    {
        UpStream {
            sub_id: self.sub_id.clone(),
            upstream: self.upstream.clone(),
            raw: self.raw.clone(),
            sub_override: self.sub_override,
        }
    }
}

/// The views of a list of subscriptions.
pub open spec fn upstreams(list: Seq<UpStream>) -> Seq<UpStreamView> {
    Seq::new(list.len(), |i: int| list[i]@)
}

/// A copy of a list of subscriptions.
pub fn copy_upstreams(list: &Vec<UpStream>) -> (copy: Vec<UpStream>)
    ensures
        upstreams(copy@) == upstreams(list@),
{
    let mut copy: Vec<UpStream> = Vec::new();
    let mut i: usize = 0;
    while i < list.len()
        invariant
            i <= list.len(),
            upstreams(copy@) == upstreams(list@).take(i as int),
        decreases list.len() - i,
    {
        let ghost before = upstreams(copy@);
        let item = list[i].clone();
        copy.push(item);
        assert(upstreams(copy@) =~= before.push(item@));
        i += 1;
        assert(upstreams(copy@) =~= upstreams(list@).take(i as int));
    }
    assert(upstreams(list@).take(list.len() as int) =~= upstreams(list@));
    copy
}

} // verus!
