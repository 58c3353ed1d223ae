use vstd::prelude::*;
use crate::text::{copy_texts, opt_view, texts};
use crate::DIRECT_NAME;

verus! {

/// A named selection policy over proxy names: a manual selector, a
/// latency-probed selector, or a relay chain. A group that is declared
/// locally may say to which subscriptions it applies.
pub struct ProxyGroup {
    name: String,
    type_: String,
    proxies: Vec<String>,
    url: Option<String>,
    interval: Option<u64>,
    apply_to: Vec<String>,
    not_apply_to: Vec<String>,
}

/// What a `ProxyGroup` holds.
pub struct ProxyGroupView {
    pub name: Seq<char>,
    pub kind: Seq<char>,
    pub proxies: Seq<Seq<char>>,
    pub url: Option<Seq<char>>,
    pub interval: Option<u64>,
    pub apply_to: Seq<Seq<char>>,
    pub not_apply_to: Seq<Seq<char>>,
}

impl View for ProxyGroup {
    type V = ProxyGroupView;

    closed spec fn view(&self) -> ProxyGroupView {
        ProxyGroupView {
            name: self.name@,
            kind: self.type_@,
            proxies: texts(self.proxies@),
            url: opt_view(self.url),
            interval: self.interval,
            apply_to: texts(self.apply_to@),
            not_apply_to: texts(self.not_apply_to@),
        }
    }
}

/// A group of the given kind that applies everywhere and is never probed.
pub open spec fn plain_group(
    name: Seq<char>,
    kind: Seq<char>,
    proxies: Seq<Seq<char>>,
) -> ProxyGroupView {
    ProxyGroupView {
        name,
        kind,
        proxies,
        url: None,
        interval: None,
        apply_to: Seq::empty(),
        not_apply_to: Seq::empty(),
    }
}

impl ProxyGroup {
    pub fn new(
        name: String,
        type_: String,
        proxies: Vec<String>,
        url: Option<String>,
        interval: Option<u64>,
        apply_to: Vec<String>,
        not_apply_to: Vec<String>,
    ) -> (r: Self)
        ensures
            r@ == (ProxyGroupView {
                name: name@,
                kind: type_@,
                proxies: texts(proxies@),
                url: opt_view(url),
                interval,
                apply_to: texts(apply_to@),
                not_apply_to: texts(not_apply_to@),
            }),
    {
        ProxyGroup { name, type_, proxies, url, interval, apply_to, not_apply_to }
    }

    pub fn name(&self) -> (r: &str)
        ensures
            r@ == self@.name,
    {
        self.name.as_str()
    }

    pub fn group_type(&self) -> (r: &str)
        ensures
            r@ == self@.kind,
    {
        self.type_.as_str()
    }

    pub fn proxies(&self) -> (r: &Vec<String>)
        ensures
            texts(r@) == self@.proxies,
    {
        &self.proxies
    }

    pub fn url(&self) -> (r: Option<&String>)
        ensures
            r is Some == self@.url is Some,
            r is Some ==> r->0@ == self@.url->0,
    {
        self.url.as_ref()
    }

    pub fn interval(&self) -> (r: Option<u64>)
        ensures
            r == self@.interval,
    {
        self.interval
    }

    /// Takes the member at `index` out of the group.
    pub fn remove(&mut self, index: usize) -> (r: &mut Self)
        requires
            index < old(self)@.proxies.len(),
        ensures
            r@ == (ProxyGroupView {
                proxies: old(self)@.proxies.remove(index as int),
                ..old(self)@
            }),
            *final(self) == *final(r),
    {
        self.proxies.remove(index);
        assert(texts(self.proxies@) =~= texts(old(self).proxies@).remove(index as int));
        self
    }

    pub fn new_relay(name: String, first: String, second: String) -> (r: Self)
        ensures
            r@ == plain_group(name@, "relay"@, seq![first@, second@]),
    {
        let mut proxies: Vec<String> = Vec::new();
        proxies.push(first);
        proxies.push(second);
        let r = ProxyGroup {
            name,
            type_: "relay".to_owned(),
            proxies,
            url: None,
            interval: None,
            apply_to: Vec::new(),
            not_apply_to: Vec::new(),
        };
        assert(r@.proxies =~= seq![first@, second@]);
        assert(r@.apply_to =~= Seq::empty());
        assert(r@.not_apply_to =~= Seq::empty());
        r
    }

    pub fn new_select(name: String, proxies: Vec<String>) -> (r: Self)
        ensures
            r@ == plain_group(name@, "select"@, texts(proxies@)),
    {
        let r = ProxyGroup {
            name,
            type_: "select".to_owned(),
            proxies,
            url: None,
            interval: None,
            apply_to: Vec::new(),
            not_apply_to: Vec::new(),
        };
        assert(r@.apply_to =~= Seq::empty());
        assert(r@.not_apply_to =~= Seq::empty());
        r
    }

    pub fn new_url_test(name: String, proxies: Vec<String>, url: String) -> (r: Self)
        ensures
            r@ == (ProxyGroupView {
                url: Some(url@),
                interval: Some(600),
                ..plain_group(name@, "url-test"@, texts(proxies@))
            }),
    {
        let r = ProxyGroup {
            name,
            type_: "url-test".to_owned(),
            proxies,
            url: Some(url),
            interval: Some(600),
            apply_to: Vec::new(),
            not_apply_to: Vec::new(),
        };
        assert(r@.apply_to =~= Seq::empty());
        assert(r@.not_apply_to =~= Seq::empty());
        r
    }

    /// Puts `proxy` at `index` among the members; those from `index` on move
    /// one place back.
    pub fn insert(&mut self, index: usize, proxy: String) -> (r: &mut Self)
        requires
            index <= old(self)@.proxies.len(),
        ensures
            r@ == (ProxyGroupView {
                proxies: old(self)@.proxies.insert(index as int, proxy@),
                ..old(self)@
            }),
            *final(self) == *final(r),
    {
        self.proxies.insert(index, proxy);
        assert(texts(self.proxies@) =~= texts(old(self).proxies@).insert(index as int, proxy@));
        self
    }

    /// Ends the members with the pass-through target.
    pub fn insert_direct(self) -> (r: Self)
        ensures
            r@ == (ProxyGroupView { proxies: self@.proxies.push(DIRECT_NAME@), ..self@ }),
    {
        let mut group = self;
        group.proxies.push(DIRECT_NAME.to_owned());
        assert(texts(group.proxies@) =~= self@.proxies.push(DIRECT_NAME@));
        group
    }

    pub fn proxies_mut(&mut self) -> (r: &mut Vec<String>)
        ensures
            texts(r@) == old(self)@.proxies,
            final(self)@ == (ProxyGroupView { proxies: texts(final(r)@), ..old(self)@ }),
    {
        &mut self.proxies
    }

    pub fn apply_to(&self) -> (r: &[String])
        ensures
            texts(r@) == self@.apply_to,
    {
        &self.apply_to
    }

    pub fn not_apply_to(&self) -> (r: &[String])
        ensures
            texts(r@) == self@.not_apply_to,
    {
        &self.not_apply_to
    }
}

impl Clone for ProxyGroup {
    fn clone(&self) -> (r: Self)
        ensures
            r@ == self@,
    {
        ProxyGroup {
            name: self.name.clone(),
            type_: self.type_.clone(),
            proxies: copy_texts(&self.proxies),
            url: self.url.clone(),
            interval: self.interval,
            apply_to: copy_texts(&self.apply_to),
            not_apply_to: copy_texts(&self.not_apply_to),
        }
    }
}

impl Default for ProxyGroup {
    fn default() -> (r: Self)
        ensures
            r@ == plain_group(Seq::empty(), Seq::empty(), Seq::empty()),
    {
        let r = ProxyGroup {
            name: String::new(),
            type_: String::new(),
            proxies: Vec::new(),
            url: None,
            interval: None,
            apply_to: Vec::new(),
            not_apply_to: Vec::new(),
        };
        assert(r@.proxies =~= Seq::empty());
        assert(r@.apply_to =~= Seq::empty());
        assert(r@.not_apply_to =~= Seq::empty());
        r
    }
}

/// The views of a list of groups.
pub open spec fn groups(list: Seq<ProxyGroup>) -> Seq<ProxyGroupView> {
    Seq::new(list.len(), |i: int| list[i]@)
}

/// A copy of a list of groups.
pub fn copy_groups(list: &Vec<ProxyGroup>) -> (copy: Vec<ProxyGroup>)
    ensures
        groups(copy@) == groups(list@),
{
    let mut copy: Vec<ProxyGroup> = Vec::new();
    let mut i: usize = 0;
    while i < list.len()
        invariant
            i <= list.len(),
            groups(copy@) == groups(list@).take(i as int),
        decreases list.len() - i,
    {
        let ghost before = groups(copy@);
        let item = list[i].clone();
        copy.push(item);
        assert(groups(copy@) =~= before.push(item@));
        i += 1;
        assert(groups(copy@) =~= groups(list@).take(i as int));
    }
    assert(groups(list@).take(list.len() as int) =~= groups(list@));
    copy
}

/// An ordered list of proxy groups.
pub struct ProxyGroups(pub Vec<ProxyGroup>);

impl View for ProxyGroups {
    type V = Seq<ProxyGroupView>;

    open spec fn view(&self) -> Seq<ProxyGroupView> {
        groups(self.0@)
    }
}

impl ProxyGroups {
    pub fn get_vec(&self) -> (r: &Vec<ProxyGroup>)
        ensures
            *r == self.0,
    {
        &self.0
    }

    pub fn set_vec(&mut self, v: Vec<ProxyGroup>) -> (r: &mut Self)
        ensures
            r.0 == v,
            *final(self) == *final(r),
    {
        self.0 = v;
        self
    }
}

impl Clone for ProxyGroups {
    fn clone(&self) -> (r: Self)
        ensures
            r@ == self@,
    {
        ProxyGroups(copy_groups(&self.0))
    }
}

impl Default for ProxyGroups {
    fn default() -> (r: Self)
        ensures
            r@ == Seq::<ProxyGroupView>::empty(),
    {
        let r = ProxyGroups(Vec::new());
        assert(r@ =~= Seq::<ProxyGroupView>::empty());
        r
    }
}

} // verus!
