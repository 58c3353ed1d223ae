use vstd::prelude::*;
use crate::parser::external_config::{file_rules, ExternalConfig, ExternalConfigSubView};
use crate::parser::http_configure::{HttpServerConfigure, HttpServerConfigureView};
use crate::parser::keyword::{Keyword, KeywordView};
use crate::parser::proxies::Proxies;
use crate::parser::proxy_groups::{groups, ProxyGroup, ProxyGroupView};
use crate::parser::rules::Rules;
use crate::parser::upstream::{upstreams, UpStream, UpStreamView};
use crate::text::{chars_of, find_from, opt_view, position, text_of_range, texts};

verus! {

/// The address that latency probes ask for where the configuration names
/// none.
pub fn default_test_url() -> (r: String)
    ensures
        r@ == "http://www.gstatic.com/generate_204"@,
{
    "http://www.gstatic.com/generate_204".to_owned()
}

/// The operator's local configuration.
pub struct Configure {
    upstream: Vec<UpStream>,
    rules: Rules,
    proxies: Proxies,
    keyword: Keyword,
    test_url: String,
    http: HttpServerConfigure,
    manual_add_group_name: Vec<String>,
    proxy_groups: Vec<ProxyGroup>,
    additional_rules: Vec<String>,
}

/// What a `Configure` holds.
pub struct ConfigureView {
    pub upstream: Seq<UpStreamView>,
    pub rules: Seq<Seq<char>>,
    pub proxies: Seq<serde_yaml::Value>,
    pub keyword: KeywordView,
    pub test_url: Seq<char>,
    pub http: HttpServerConfigureView,
    pub manual_add_group_name: Seq<Seq<char>>,
    pub proxy_groups: Seq<ProxyGroupView>,
    pub additional_rules: Seq<Seq<char>>,
}

impl View for Configure {
    type V = ConfigureView;

    closed spec fn view(&self) -> ConfigureView {
        ConfigureView {
            upstream: upstreams(self.upstream@),
            rules: self.rules@,
            proxies: self.proxies@,
            keyword: self.keyword@,
            test_url: self.test_url@,
            http: self.http@,
            manual_add_group_name: texts(self.manual_add_group_name@),
            proxy_groups: groups(self.proxy_groups@),
            additional_rules: texts(self.additional_rules@),
        }
    }
}

/// The two parts of an entry `path,target` of the additional rules: what
/// stands before its first comma and what stands behind it. An entry without
/// a comma has no parts.
pub open spec fn source_parts(entry: Seq<char>) -> Option<(Seq<char>, Seq<char>)> {
    let i = position(entry, ',');
    if 0 <= i < entry.len() {
        Some((entry.subrange(0, i), entry.subrange(i + 1, entry.len() as int)))
    } else {
        None
    }
}

/// The view of an optional pair of strings.
pub open spec fn pair_view(pair: Option<(String, String)>) -> Option<(Seq<char>, Seq<char>)> {
    match pair {
        Some((a, b)) => Some((a@, b@)),
        None => None,
    }
}

impl Configure {
    pub fn new(
        upstream: Vec<UpStream>,
        rules: Rules,
        proxies: Proxies,
        keyword: Keyword,
        test_url: String,
        http: HttpServerConfigure,
        manual_add_group_name: Vec<String>,
        proxy_groups: Vec<ProxyGroup>,
        additional_rules: Vec<String>,
    ) -> (r: Self)
        ensures
            r@ == (ConfigureView {
                upstream: upstreams(upstream@),
                rules: rules@,
                proxies: proxies@,
                keyword: keyword@,
                test_url: test_url@,
                http: http@,
                manual_add_group_name: texts(manual_add_group_name@),
                proxy_groups: groups(proxy_groups@),
                additional_rules: texts(additional_rules@),
            }),
    {
        Configure {
            upstream,
            rules,
            proxies,
            keyword,
            test_url,
            http,
            manual_add_group_name,
            proxy_groups,
            additional_rules,
        }
    }

    pub fn rules(&self) -> (r: &Rules)
        ensures
            r@ == self@.rules,
    {
        &self.rules
    }

    pub fn proxies(&self) -> (r: &Proxies)
        ensures
            r@ == self@.proxies,
    {
        &self.proxies
    }

    pub fn keyword(&self) -> (r: &Keyword)
        ensures
            r@ == self@.keyword,
    {
        &self.keyword
    }

    pub fn test_url(&self) -> (r: String)
        ensures
            r@ == self@.test_url,
    {
        self.test_url.clone()
    }

    pub fn upstream(&self) -> (r: &Vec<UpStream>)
        ensures
            upstreams(r@) == self@.upstream,
    {
        &self.upstream
    }

    pub fn http(&self) -> (r: &HttpServerConfigure)
        ensures
            r@ == self@.http,
    {
        &self.http
    }

    pub fn need_added_proxy(self) -> (r: Vec<String>)
        ensures
            texts(r@) == self@.manual_add_group_name,
    {
        self.manual_add_group_name
    }

    pub fn proxy_groups(&self) -> (r: &Vec<ProxyGroup>)
        ensures
            groups(r@) == self@.proxy_groups,
    {
        &self.proxy_groups
    }

    pub fn additional_rules(&self) -> (r: &Vec<String>)
        ensures
            texts(r@) == self@.additional_rules,
    {
        &self.additional_rules
    }

    /// The path and the target that an entry of the additional rules names.
    pub fn rule_source(entry: &str) -> (r: Option<(String, String)>)
        ensures
            pair_view(r) == source_parts(entry@),
    {
        let chars = chars_of(entry);
        let at = find_from(&chars, 0, ',');
        assert(chars@.subrange(0, chars.len() as int) =~= chars@);
        if at < chars.len() {
            Some((text_of_range(&chars, 0, at), text_of_range(&chars, at + 1, chars.len())))
        } else {
            None
        }
    }

    /// Puts the rules that an external rule file stands for behind the local
    /// rules, and says how many they are.
    pub fn absorb(&mut self, external: ExternalConfig, target: &str) -> (count: usize)
        ensures
            final(self)@ == (ConfigureView {
                rules: old(self)@.rules + file_rules(external@, target@),
                ..old(self)@
            }),
            count == file_rules(external@, target@).len(),
    {
        let t = external.transform(target);
        let count = t.len();
        self.rules.append(t);
        count
    }
}

impl Clone for Configure {
    fn clone(&self) -> (r: Self)
        ensures
            r@ == self@,
    {
        Configure {
            upstream: crate::parser::upstream::copy_upstreams(&self.upstream),
            rules: self.rules.clone(),
            proxies: self.proxies.clone(),
            keyword: self.keyword.clone(),
            test_url: self.test_url.clone(),
            http: self.http.clone(),
            manual_add_group_name: crate::text::copy_texts(&self.manual_add_group_name),
            proxy_groups: crate::parser::proxy_groups::copy_groups(&self.proxy_groups),
            additional_rules: crate::text::copy_texts(&self.additional_rules),
        }
    }
}

} // verus!
