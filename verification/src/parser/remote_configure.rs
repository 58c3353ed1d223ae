use vstd::prelude::*;
use crate::document::copy_of;
use crate::parser::proxies::{template_name, Proxies, Proxy};
use crate::parser::proxy_groups::{groups, ProxyGroup, ProxyGroupView, ProxyGroups};
use crate::parser::rules::Rules;
use crate::text::{
    ascii_lower, find_text, lemma_position, lower_text, position, texts,
};

verus! {

/// The port that a subscription document listens on where it names none.
pub fn default_port() -> (r: u16)
    ensures
        r == 7890,
{
    7890
}

/// The redirect port of a subscription document that names none.
pub fn default_redir_port() -> (r: u16)
    ensures
        r == 7892,
{
    7892
}

/// The SOCKS port of a subscription document that names none.
pub fn default_socks_port() -> (r: u16)
    ensures
        r == 7891,
{
    7891
}

/// A subscription document: the listener's settings, the proxy records, the
/// groups over them and the rules. The order of groups and of rules is
/// significant.
pub struct RemoteConfigure {
    port: u16,
    socks_port: u16,
    redir_port: u16,
    allow_lan: bool,
    mode: String,
    log_level: String,
    external_controller: String,
    secret: String,
    proxies: Proxies,
    proxy_groups: ProxyGroups,
    rules: Rules,
}

/// What a `RemoteConfigure` holds.
pub struct RemoteConfigureView {
    pub port: u16,
    pub socks_port: u16,
    pub redir_port: u16,
    pub allow_lan: bool,
    pub mode: Seq<char>,
    pub log_level: Seq<char>,
    pub external_controller: Seq<char>,
    pub secret: Seq<char>,
    pub proxies: Seq<serde_yaml::Value>,
    pub proxy_groups: Seq<ProxyGroupView>,
    pub rules: Seq<Seq<char>>,
}

impl View for RemoteConfigure {
    type V = RemoteConfigureView;

    closed spec fn view(&self) -> RemoteConfigureView {
        RemoteConfigureView {
            port: self.port,
            socks_port: self.socks_port,
            redir_port: self.redir_port,
            allow_lan: self.allow_lan,
            mode: self.mode@,
            log_level: self.log_level@,
            external_controller: self.external_controller@,
            secret: self.secret@,
            proxies: self.proxies@,
            proxy_groups: self.proxy_groups@,
            rules: self.rules@,
        }
    }
}

/// `list` without the first of its members that equals `item`.
pub open spec fn without_first(list: Seq<Seq<char>>, item: Seq<char>) -> Seq<Seq<char>> {
    let i = position(list, item);
    if 0 <= i < list.len() {
        list.remove(i)
    } else {
        list
    }
}

/// `list` after the items, one after the other from the first on, have each
/// had their first occurrence taken out of it.
pub open spec fn without_each(list: Seq<Seq<char>>, items: Seq<Seq<char>>) -> Seq<Seq<char>>
    decreases items.len(),
{
    if items.len() == 0 {
        list
    } else {
        without_first(without_each(list, items.drop_last()), items.last())
    }
}

/// The names of the records whose password is empty, in the order of the
/// records.
pub open spec fn template_names(list: Seq<serde_yaml::Value>) -> Seq<Seq<char>>
    decreases list.len(),
{
    if list.len() == 0 {
        Seq::empty()
    } else {
        match template_name(list.last()) {
            Some(name) => template_names(list.drop_last()).push(name),
            None => template_names(list.drop_last()),
        }
    }
}

/// A group without the members that `names` takes out of it.
pub open spec fn pruned(group: ProxyGroupView, names: Seq<Seq<char>>) -> ProxyGroupView {
    ProxyGroupView { proxies: without_each(group.proxies, names), ..group }
}

/// Each group of the list, pruned.
pub open spec fn pruned_groups(list: Seq<ProxyGroupView>, names: Seq<Seq<char>>) -> Seq<
    ProxyGroupView,
> {
    Seq::new(list.len(), |i: int| pruned(list[i], names))
}

/// The names of the records of `list` whose password is empty.
pub fn collect_template_names(list: &Vec<serde_yaml::Value>) -> (names: Vec<String>)
    ensures
        texts(names@) == template_names(list@),
{
    let mut names: Vec<String> = Vec::new();
    let mut i: usize = 0;
    assert(list@.take(0) =~= Seq::empty());
    assert(texts(names@) =~= Seq::empty());
    while i < list.len()
        invariant
            i <= list.len(),
            texts(names@) == template_names(list@.take(i as int)),
        decreases list.len() - i,
    {
        let ghost before = texts(names@);
        let ghost next = list@.take(i + 1);
        assert(next.drop_last() =~= list@.take(i as int));
        assert(next.last() == list@[i as int]);
        match Proxy::is_empty_password(copy_of(&list[i])) {
            Some(name) => {
                names.push(name);
                assert(texts(names@) =~= before.push(name@));
            },
            None => {},
        }
        i += 1;
    }
    assert(list@.take(list.len() as int) =~= list@);
    names
}

/// Takes the first occurrence of each of `names`, one after the other, out of
/// the members of `group`.
pub fn prune_group(group: &mut ProxyGroup, names: &Vec<String>)
    ensures
        final(group)@ == pruned(old(group)@, texts(names@)),
{
    let mut k: usize = 0;
    assert(texts(names@).take(0) =~= Seq::empty());
    while k < names.len()
        invariant
            k <= names.len(),
            group@ == pruned(old(group)@, texts(names@).take(k as int)),
        decreases names.len() - k,
    {
        let ghost next = texts(names@).take(k + 1);
        assert(next.drop_last() =~= texts(names@).take(k as int));
        assert(next.last() == names@[k as int]@);
        let at = find_text(group.proxies(), names[k].as_str());
        if at < group.proxies().len() {
            group.remove(at);
        }
        k += 1;
    }
    assert(texts(names@).take(names.len() as int) =~= texts(names@));
}

impl RemoteConfigure {
    pub fn new(
        port: u16,
        socks_port: u16,
        redir_port: u16,
        allow_lan: bool,
        mode: String,
        log_level: String,
        external_controller: String,
        secret: String,
        proxies: Proxies,
        proxy_groups: ProxyGroups,
        rules: Rules,
    ) -> (r: Self)
        ensures
            r@ == (RemoteConfigureView {
                port,
                socks_port,
                redir_port,
                allow_lan,
                mode: mode@,
                log_level: log_level@,
                external_controller: external_controller@,
                secret: secret@,
                proxies: proxies@,
                proxy_groups: proxy_groups@,
                rules: rules@,
            }),
    {
        RemoteConfigure {
            port,
            socks_port,
            redir_port,
            allow_lan,
            mode,
            log_level,
            external_controller,
            secret,
            proxies,
            proxy_groups,
            rules,
        }
    }

    pub fn port(&self) -> (r: u16)
        ensures
            r == self@.port,
    {
        self.port
    }

    pub fn socks_port(&self) -> (r: u16)
        ensures
            r == self@.socks_port,
    {
        self.socks_port
    }

    pub fn redir_port(&self) -> (r: u16)
        ensures
            r == self@.redir_port,
    {
        self.redir_port
    }

    pub fn allow_lan(&self) -> (r: bool)
        ensures
            r == self@.allow_lan,
    {
        self.allow_lan
    }

    pub fn mode(&self) -> (r: &str)
        ensures
            r@ == self@.mode,
    {
        self.mode.as_str()
    }

    pub fn log_level(&self) -> (r: &str)
        ensures
            r@ == self@.log_level,
    {
        self.log_level.as_str()
    }

    pub fn external_controller(&self) -> (r: &str)
        ensures
            r@ == self@.external_controller,
    {
        self.external_controller.as_str()
    }

    pub fn secret(&self) -> (r: &str)
        ensures
            r@ == self@.secret,
    {
        self.secret.as_str()
    }

    pub fn proxies(&self) -> (r: &Proxies)
        ensures
            r@ == self@.proxies,
    {
        &self.proxies
    }

    pub fn rules(&self) -> (r: &Rules)
        ensures
            r@ == self@.rules,
    {
        &self.rules
    }

    pub fn proxy_groups(&self) -> (r: &ProxyGroups)
        ensures
            r@ == self@.proxy_groups,
    {
        &self.proxy_groups
    }

    pub fn mut_proxy_groups(&mut self) -> (r: &mut ProxyGroups)
        ensures
            r@ == old(self)@.proxy_groups,
            final(self)@ == (RemoteConfigureView { proxy_groups: final(r)@, ..old(self)@ }),
    {
        &mut self.proxy_groups
    }

    pub fn mut_rules(&mut self) -> (r: &mut Rules)
        ensures
            r@ == old(self)@.rules,
            final(self)@ == (RemoteConfigureView { rules: final(r)@, ..old(self)@ }),
    {
        &mut self.rules
    }

    pub fn mut_proxies(&mut self) -> (r: &mut Proxies)
        ensures
            r@ == old(self)@.proxies,
            final(self)@ == (RemoteConfigureView { proxies: final(r)@, ..old(self)@ }),
    {
        &mut self.proxies
    }

    /// Takes out of every group the names of the records that are never
    /// handed on: for each such record, in the order of the records, the first
    /// member of the group that equals its name.
    pub fn optimize(&mut self) -> (r: &mut Self)
        ensures
            r@ == (RemoteConfigureView {
                proxy_groups: pruned_groups(
                    old(self)@.proxy_groups,
                    template_names(old(self)@.proxies),
                ),
                ..old(self)@
            }),
            *final(self) == *final(r),
    {
        let names = collect_template_names(self.proxies.get_vec());
        let ghost all = old(self)@.proxy_groups;
        let mut g: usize = 0;
        while g < self.proxy_groups.0.len()
            invariant
                g <= self.proxy_groups.0.len(),
                self.proxy_groups.0.len() == all.len(),
                self@ == (RemoteConfigureView { proxy_groups: self@.proxy_groups, ..old(self)@ }),
                forall|j: int| 0 <= j < g ==> self@.proxy_groups[j] == pruned(all[j], texts(names@)),
                forall|j: int| g <= j < all.len() ==> self@.proxy_groups[j] == all[j],
            decreases self.proxy_groups.0.len() - g,
        {
            let ghost before = self.proxy_groups.0@;
            prune_group(&mut self.proxy_groups.0[g], &names);
            assert(self.proxy_groups.0@.len() == before.len());
            assert(forall|j: int| 0 <= j < before.len() && j != g ==> self.proxy_groups.0@[j] == before[j]);
            assert(self.proxy_groups.0@[g as int]@ == pruned(before[g as int]@, texts(names@)));
            assert forall|j: int| 0 <= j < g + 1 implies self@.proxy_groups[j] == pruned(
                all[j],
                texts(names@),
            ) by {
                if j < g {
                    assert(self@.proxy_groups[j] == groups(before)[j]);
                } else {
                    assert(groups(before)[j] == all[j]);
                }
            }
            assert forall|j: int| g + 1 <= j < all.len() implies self@.proxy_groups[j] == all[j] by {
                assert(self@.proxy_groups[j] == groups(before)[j]);
            }
            g += 1;
        }
        assert(self@.proxy_groups =~= pruned_groups(all, texts(names@)));
        self
    }

    pub fn proxies_len(&self) -> (n: usize)
        ensures
            n == self@.proxies.len(),
    {
        self.proxies.0.len()
    }

    /// Writes the forwarding mode in lower case.
    pub fn normalize(&mut self)
        ensures
            final(self)@ == (RemoteConfigureView {
                mode: ascii_lower(old(self)@.mode),
                ..old(self)@
            }),
    {
        self.mode = lower_text(self.mode.as_str());
    }
}

impl Clone for RemoteConfigure {
    fn clone(&self) -> (r: Self)
        ensures
            r@ == self@,
    {
        RemoteConfigure {
            port: self.port,
            socks_port: self.socks_port,
            redir_port: self.redir_port,
            allow_lan: self.allow_lan,
            mode: self.mode.clone(),
            log_level: self.log_level.clone(),
            external_controller: self.external_controller.clone(),
            secret: self.secret.clone(),
            proxies: self.proxies.clone(),
            proxy_groups: self.proxy_groups.clone(),
            rules: self.rules.clone(),
        }
    }
}

} // verus!
