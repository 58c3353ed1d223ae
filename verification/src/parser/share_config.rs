use vstd::prelude::*;
use vstd::std_specs::convert::FromSpecImpl;
use vstd::string::StringExecFns;
use crate::parser::configure::{Configure, ConfigureView};
use crate::parser::keyword::{Keyword, KeywordView};
use crate::parser::proxies::Proxies;
use crate::parser::proxy_groups::{copy_groups, groups, ProxyGroup, ProxyGroupView};
use crate::parser::rules::Rules;
use crate::parser::upstream::{upstreams, UpStream, UpStreamView};
use crate::text::opt_view;
use crate::text::{
    chars_of, count_leading, decimal, decimal_text, find_from, join, join_texts, leading,
    lemma_decimal_digits, lemma_join_split, lemma_leading, lemma_leading_is, lemma_position,
    lemma_position_is, lemma_split_join, lemma_split_pieces, lines, position, split, split_chars,
    text_of, text_of_range, texts, white_space,
};

verus! {

/// What the watcher of the configuration file asks of the task that reloads.
#[derive(Clone, Copy, Debug, PartialEq, Eq, Structural)]
pub enum UpdateConfigureEvent {
    NeedUpdate,
    Terminate,
}

/// The quota figures that a subscription entry puts in place of those that
/// the upstream reports. A field that is unset overrides nothing.
#[derive(Clone, Copy, Debug)]
pub struct OverridableValue {
    expire: Option<u64>,
    total: Option<u64>,
    download: Option<u64>,
    upload: Option<u64>,
}

/// What an `OverridableValue` holds.
pub struct OverridableValueView {
    pub expire: Option<u64>,
    pub total: Option<u64>,
    pub download: Option<u64>,
    pub upload: Option<u64>,
}

impl View for OverridableValue {
    type V = OverridableValueView;

    closed spec fn view(&self) -> OverridableValueView {
        OverridableValueView {
            expire: self.expire,
            total: self.total,
            download: self.download,
            upload: self.upload,
        }
    }
}

/// The view of an optional override.
pub open spec fn override_view(value: Option<OverridableValue>) -> Option<OverridableValueView> {
    match value {
        Some(v) => Some(v@),
        None => None,
    }
}

/// `key=value`, with the overriding figure in decimal where there is one and
/// the value that stood there where there is none.
pub open spec fn pushed(key: Seq<char>, value: Option<u64>, origin: Seq<char>) -> Seq<char> {
    key + seq!['='] + match value {
        Some(v) => decimal(v as nat),
        None => origin,
    }
}

/// The figure that overrides the value under `key`, if `key` is one of the
/// four that can be overridden and its figure is set.
pub open spec fn figure_for(ov: OverridableValueView, key: Seq<char>) -> Option<u64> {
    if key == "upload"@ {
        ov.upload
    } else if key == "download"@ {
        ov.download
    } else if key == "total"@ {
        ov.total
    } else if key == "expire"@ {
        ov.expire
    } else {
        None
    }
}

/// The key of a token: what stands between the white space that the token
/// starts with and its first `=`. A token without `=` has no key.
pub open spec fn token_key(token: Seq<char>) -> Option<Seq<char>> {
    let body = token.subrange(leading(token), token.len() as int);
    let i = position(body, '=');
    if 0 <= i < body.len() {
        Some(body.subrange(0, i))
    } else {
        None
    }
}

/// One token of a quota string after the override. A token whose key has a
/// figure set keeps all that stands up to and with its first `=`, and has the
/// figure behind it in place of its value. Every other token is the token as
/// it stood.
pub open spec fn rewritten_token(ov: OverridableValueView, token: Seq<char>) -> Seq<char> {
    match token_key(token) {
        Some(key) => match figure_for(ov, key) {
            Some(v) => token.subrange(0, leading(token) + key.len() + 1) + decimal(v as nat),
            None => token,
        },
        None => token,
    }
}

/// The tokens of a quota string, each overridden.
pub open spec fn rewritten_tokens(ov: OverridableValueView, pieces: Seq<Seq<char>>) -> Seq<
    Seq<char>,
> {
    Seq::new(pieces.len(), |i: int| rewritten_token(ov, pieces[i]))
}

/// A quota string after the override: the string is cut at each `;`, and its
/// tokens, each overridden, are put together again with `;`. A string
/// without `;` is one token.
pub open spec fn rewritten(ov: OverridableValueView, input: Seq<char>) -> Seq<char> {
    join(rewritten_tokens(ov, split(input, ';')), seq![';'])
}

impl OverridableValue {
    pub fn new(
        expire: Option<u64>,
        total: Option<u64>,
        download: Option<u64>,
        upload: Option<u64>,
    ) -> (r: Self)
        ensures
            r@ == (OverridableValueView { expire, total, download, upload }),
    {
        OverridableValue { expire, total, download, upload }
    }

    pub fn expire(&self) -> (r: Option<u64>)
        ensures
            r == self@.expire,
    {
        self.expire
    }

    pub fn total(&self) -> (r: Option<u64>)
        ensures
            r == self@.total,
    {
        self.total
    }

    pub fn download(&self) -> (r: Option<u64>)
        ensures
            r == self@.download,
    {
        self.download
    }

    pub fn upload(&self) -> (r: Option<u64>)
        ensures
            r == self@.upload,
    {
        self.upload
    }

    /// The figure that overrides the value under `key`.
    fn figure(&self, key: &str) -> (r: Option<u64>)
        ensures
            r == figure_for(self@, key@),
    {
        if key.eq("upload") {
            self.upload
        } else if key.eq("download") {
            self.download
        } else if key.eq("total") {
            self.total
        } else if key.eq("expire") {
            self.expire
        } else {
            None
        }
    }

    /// One token of a quota string, overridden.
    fn rewrite_token(&self, token: &Vec<char>) -> (r: String)
        ensures
            r@ == rewritten_token(self@, token@),
    {
        let lead = count_leading(token);
        let at = find_from(token, lead, '=');
        let ghost body = token@.subrange(lead as int, token.len() as int);
        proof {
            lemma_position(body, '=');
        }
        if at == token.len() {
            return text_of(token);
        }
        let key = text_of_range(token, lead, at);
        let value = text_of_range(token, at + 1, token.len());
        assert(key@ =~= body.subrange(0, at - lead));
        let figure = self.figure(key.as_str());
        match figure {
            Some(v) => {
                let mut out = text_of_range(token, 0, lead);
                out.append(Self::check_and_push(key.as_str(), figure, value.as_str()).as_str());
                assert(out@ =~= token@.subrange(0, at + 1) + decimal(v as nat));
                out
            },
            None => text_of(token),
        }
    }

    /// Applies the override to a quota string.
    pub fn rewrite(&self, input: String) -> (r: String)
        ensures
            r@ == rewritten(self@, input@),
    {
        let chars = chars_of(input.as_str());
        let pieces = split_chars(&chars, ';');
        let mut v: Vec<String> = Vec::new();
        let mut i: usize = 0;
        while i < pieces.len()
            invariant
                i <= pieces.len(),
                v.len() == i,
                forall|j: int| 0 <= j < i ==> v@[j]@ == rewritten_token(self@, pieces@[j]@),
            decreases pieces.len() - i,
        {
            v.push(self.rewrite_token(&pieces[i]));
            i += 1;
        }
        proof {
            reveal_strlit(";");
            assert(";"@ =~= seq![';']);
            assert(texts(v@) =~= rewritten_tokens(self@, lines(pieces@)));
        }
        join_texts(&v, ";")
    }

    /// `key=value` with the overriding figure where there is one.
    pub fn check_and_push(key: &str, value: Option<u64>, origin: &str) -> (r: String)
        ensures
            r@ == pushed(key@, value, origin@),
    {
        let mut out = key.to_owned();
        out.push('=');
        match value {
            Some(v) => {
                let figure = decimal_text(v);
                out.append(figure.as_str());
            },
            None => {
                out.append(origin);
            },
        }
        assert(out@ =~= pushed(key@, value, origin@));
        out
    }
}

/// A token whose key has no figure set is not changed by the override: that
/// is every token without `=`, every token with another key than the four,
/// and every token whose field is unset.
pub proof fn lemma_token_untouched(ov: OverridableValueView, token: Seq<char>)
    requires
        token_key(token) matches Some(key) ==> figure_for(ov, key) is None,
    ensures
        rewritten_token(ov, token) == token,
{
}

/// A key that has a figure is one of the four, and starts with a letter.
proof fn lemma_figure_key(ov: OverridableValueView, key: Seq<char>)
    requires
        figure_for(ov, key) is Some,
    ensures
        key.len() > 0,
        !white_space(key[0]),
{
    reveal_strlit("upload");
    reveal_strlit("download");
    reveal_strlit("total");
    reveal_strlit("expire");
}

/// A token `key=value`, with or without white space in front of it, whose
/// key has its figure set becomes the same with the figure as its value:
/// nothing but the value changes.
pub proof fn lemma_token_overridden(
    ov: OverridableValueView,
    blank: Seq<char>,
    key: Seq<char>,
    value: Seq<char>,
)
    requires
        forall|j: int| 0 <= j < blank.len() ==> white_space(#[trigger] blank[j]),
        !key.contains('='),
        figure_for(ov, key) is Some,
    ensures
        rewritten_token(ov, blank + key + seq!['='] + value) == blank + key + seq!['='] + decimal(
            figure_for(ov, key)->0 as nat,
        ),
{
    let token = blank + key + seq!['='] + value;
    lemma_figure_key(ov, key);
    assert forall|j: int| 0 <= j < blank.len() implies white_space(#[trigger] token[j]) by {
        assert(token[j] == blank[j]);
    }
    assert(token[blank.len() as int] == key[0]);
    lemma_leading_is(token, blank.len() as int);
    let body = token.subrange(blank.len() as int, token.len() as int);
    assert(body =~= key + seq!['='] + value);
    assert forall|j: int| 0 <= j < key.len() implies body[j] != '=' by {
        assert(body[j] == key[j]);
        assert(key.contains(key[j]));
    }
    assert(body[key.len() as int] == '=');
    lemma_position_is(body, '=', key.len() as int);
    assert(body.subrange(0, key.len() as int) =~= key);
    assert(token.subrange(0, (blank.len() + key.len() + 1) as int) =~= blank + key + seq!['=']);
}

/// No token holds `;` after the override, if it held none before.
proof fn lemma_token_keeps_clear(ov: OverridableValueView, token: Seq<char>)
    requires
        !token.contains(';'),
    ensures
        !rewritten_token(ov, token).contains(';'),
{
    let out = rewritten_token(ov, token);
    lemma_leading(token);
    let body = token.subrange(leading(token), token.len() as int);
    lemma_position(body, '=');
    match token_key(token) {
        Some(key) => match figure_for(ov, key) {
            Some(v) => {
                lemma_decimal_digits(v as nat);
                let cut = leading(token) + key.len() + 1;
                if out.contains(';') {
                    let j = choose|j: int| 0 <= j < out.len() && out[j] == ';';
                    if j < cut {
                        assert(out[j] == token[j]);
                        assert(token.contains(token[j]));
                    } else {
                        assert(out[j] == decimal(v as nat)[j - cut]);
                    }
                }
            },
            None => {},
        },
        None => {},
    }
}

/// The override works token by token: the rewritten string has as many
/// tokens as the input, in the same order, and each is the token of the
/// input overridden by itself. So a token changes only if its own key has a
/// figure set, and no token is added or lost.
pub proof fn lemma_rewrite_by_token(ov: OverridableValueView, input: Seq<char>)
    ensures
        split(rewritten(ov, input), ';') == rewritten_tokens(ov, split(input, ';')),
        split(rewritten(ov, input), ';').len() == split(input, ';').len(),
{
    let pieces = split(input, ';');
    let tokens = rewritten_tokens(ov, pieces);
    lemma_split_pieces(input, ';');
    assert forall|k: int| 0 <= k < tokens.len() implies !(#[trigger] tokens[k]).contains(';') by {
        assert(!pieces[k].contains(';'));
        lemma_token_keeps_clear(ov, pieces[k]);
    }
    lemma_split_join(tokens, ';');
}

/// With no figure set the override changes nothing, whatever the string.
pub proof fn lemma_rewrite_unset(ov: OverridableValueView, input: Seq<char>)
    requires
        ov.expire is None,
        ov.total is None,
        ov.download is None,
        ov.upload is None,
    ensures
        rewritten(ov, input) == input,
{
    let pieces = split(input, ';');
    assert(rewritten_tokens(ov, pieces) =~= pieces);
    lemma_join_split(input, ';');
}

/// What is known of one subscription when a request for it is served.
pub struct UrlConfig {
    upstream: String,
    raw: Option<String>,
    sub_override: Option<OverridableValue>,
}

/// What a `UrlConfig` holds.
pub struct UrlConfigView {
    pub upstream: Seq<char>,
    pub raw: Option<Seq<char>>,
    pub sub_override: Option<OverridableValueView>,
}

impl View for UrlConfig {
    type V = UrlConfigView;

    closed spec fn view(&self) -> UrlConfigView {
        UrlConfigView {
            upstream: self.upstream@,
            raw: opt_view(self.raw),
            sub_override: override_view(self.sub_override),
        }
    }
}

/// What is kept of a subscription of the local configuration.
pub open spec fn url_config_of(upstream: UpStreamView) -> UrlConfigView {
    UrlConfigView {
        upstream: upstream.upstream,
        raw: upstream.raw,
        sub_override: upstream.sub_override,
    }
}

impl UrlConfig {
    pub fn upstream(&self) -> (r: &str)
        ensures
            r@ == self@.upstream,
    {
        self.upstream.as_str()
    }

    pub fn raw(&self) -> (r: Option<&str>)
        ensures
            r is Some == self@.raw is Some,
            r is Some ==> r->0@ == self@.raw->0,
    {
        match &self.raw {
            Some(s) => Some(s.as_str()),
            None => None,
        }
    }

    pub fn new(upstream: String, raw: Option<String>, sub_override: Option<OverridableValue>) -> (r:
        Self)
        ensures
            r@ == (UrlConfigView {
                upstream: upstream@,
                raw: opt_view(raw),
                sub_override: override_view(sub_override),
            }),
    {
        UrlConfig { upstream, raw, sub_override }
    }

    pub fn sub_override(&self) -> (r: Option<OverridableValue>)
        ensures
            override_view(r) == self@.sub_override,
    {
        self.sub_override
    }
}

impl Clone for UrlConfig {
    fn clone(&self) -> (r: Self)
        ensures
            r@ == self@,
    {
        UrlConfig {
            upstream: self.upstream.clone(),
            raw: self.raw.clone(),
            sub_override: self.sub_override,
        }
    }
}

impl From<&UpStream> for UrlConfig {
    fn from(value: &UpStream) -> (r: Self)
        ensures
            r@ == url_config_of(value@),
    {
        let raw = match value.raw() {
            Some(s) => Some(s.clone()),
            None => None,
        };
        UrlConfig::new(value.upstream().to_owned(), raw, value.sub_override())
    }
}

impl FromSpecImpl<&UpStream> for UrlConfig {
    open spec fn obeys_from_spec() -> bool {
        false
    }

    open spec fn from_spec(value: &UpStream) -> Self {
        arbitrary()
    }
}

/// The subscriptions by their id. An id occurs once.
pub struct UrlTable {
    entries: Vec<(String, UrlConfig)>,
}

impl View for UrlTable {
    type V = Map<Seq<char>, UrlConfigView>;

    closed spec fn view(&self) -> Map<Seq<char>, UrlConfigView> {
        Map::new(
            |k: Seq<char>| 0 <= position(self.keys(), k) < self.keys().len(),
            |k: Seq<char>| self.entries@[position(self.keys(), k)].1@,
        )
    }
}

impl UrlTable {
    /// The ids, in the order in which they were first entered.
    pub closed spec fn keys(&self) -> Seq<Seq<char>> {
        Seq::new(self.entries@.len(), |i: int| self.entries@[i].0@)
    }

    #[verifier::type_invariant]
    spec fn distinct(&self) -> bool {
        self.keys().no_duplicates()
    }

    pub fn new() -> (r: Self)
        ensures
            r@ == Map::<Seq<char>, UrlConfigView>::empty(),
    {
        let r = UrlTable { entries: Vec::new() };
        assert(r.keys() =~= Seq::empty());
        assert(r@ =~= Map::<Seq<char>, UrlConfigView>::empty());
        r
    }

    /// The place of `key` among the entries, or their number.
    fn find(&self, key: &str) -> (i: usize)
        ensures
            i == position(self.keys(), key@),
            i <= self.entries@.len(),
    {
        let mut i: usize = 0;
        while i < self.entries.len() && !self.entries[i].0.as_str().eq(key)
            invariant
                i <= self.entries.len(),
                forall|j: int| 0 <= j < i ==> self.keys()[j] != key@,
            decreases self.entries.len() - i,
        {
            i += 1;
        }
        proof {
            lemma_position_is(self.keys(), key@, i as int);
        }
        i
    }

    /// Enters `value` under `key`, in place of what stood there.
    pub fn insert(&mut self, key: String, value: UrlConfig)
        ensures
            final(self)@ == old(self)@.insert(key@, value@),
    {
        proof {
            use_type_invariant(&*self);
        }
        let ghost keys = self.keys();
        let ghost before = self@;
        let at = self.find(key.as_str());
        let mut entries: Vec<(String, UrlConfig)> = Vec::new();
        core::mem::swap(&mut entries, &mut self.entries);
        if at < entries.len() {
            entries.set(at, (key, value));
        } else {
            entries.push((key, value));
        }
        let ghost after = Seq::new(entries@.len(), |i: int| entries@[i].0@);
        proof {
            lemma_position(keys, key@);
            if at < keys.len() {
                assert(after =~= keys);
            } else {
                assert(after =~= keys.push(key@));
                assert forall|i: int, j: int|
                    0 <= i < after.len() && 0 <= j < after.len() && i != j implies after[i]
                    != after[j] by {
                    if i < keys.len() && j < keys.len() {
                        assert(keys[i] != keys[j]);
                    }
                }
            }
            assert(after.no_duplicates());
        }
        self.entries = entries;
        proof {
            assert(self.keys() == after);
            assert forall|k: Seq<char>| #[trigger]
                self@.contains_key(k) == before.insert(key@, value@).contains_key(k) by {
                lemma_position(keys, k);
                lemma_position(after, k);
                if k != key@ {
                    if position(keys, k) < keys.len() {
                        lemma_position_is(after, k, position(keys, k));
                    } else {
                        lemma_position_is(after, k, after.len() as int);
                    }
                } else {
                    lemma_position_is(after, k, at as int);
                }
            }
            assert forall|k: Seq<char>| #[trigger] self@.contains_key(k) implies self@[k]
                == before.insert(key@, value@)[k] by {
                lemma_position(keys, k);
                lemma_position(after, k);
                if k != key@ {
                    lemma_position_is(after, k, position(keys, k));
                } else {
                    lemma_position_is(after, k, at as int);
                }
            }
            assert(self@ =~= before.insert(key@, value@));
        }
    }

    /// What stands under `key`.
    pub fn url_of(&self, key: &str) -> (r: Option<&UrlConfig>)
        ensures
            r is Some == self@.contains_key(key@),
            r is Some ==> r->0@ == self@[key@],
    {
        let at = self.find(key);
        proof {
            lemma_position(self.keys(), key@);
        }
        if at < self.entries.len() {
            Some(&self.entries[at].1)
        } else {
            None
        }
    }

    /// How many ids the table holds.
    pub fn len(&self) -> (n: usize)
        ensures
            self@.dom().finite(),
            n == self@.dom().len(),
    {
        proof {
            use_type_invariant(self);
            let keys = self.keys();
            keys.unique_seq_to_set();
            assert(self@.dom() =~= keys.to_set()) by {
                assert forall|k: Seq<char>| self@.dom().contains(k) == keys.to_set().contains(
                    k,
                ) by {
                    lemma_position(keys, k);
                    if keys.contains(k) {
                        let j = choose|j: int| 0 <= j < keys.len() && keys[j] == k;
                        if position(keys, k) >= keys.len() {
                            assert(keys[j] != k);
                        }
                    }
                }
            }
            vstd::seq_lib::seq_to_set_is_finite(keys);
        }
        self.entries.len()
    }
}

/// The table that a list of subscriptions makes: each under its id, a later
/// one in place of an earlier one with the same id.
pub open spec fn url_table_of(list: Seq<UpStreamView>) -> Map<Seq<char>, UrlConfigView>
    decreases list.len(),
{
    if list.len() == 0 {
        Map::empty()
    } else {
        url_table_of(list.drop_last()).insert(list.last().sub_id, url_config_of(list.last()))
    }
}

/// `redis::Client`, declared so that the live state can hold the handle to
/// its cache store. Nothing inside it is visible to the proofs.
#[verifier::external_type_specification]
#[verifier::external_body]
pub struct ExClient(redis::Client);

/// The live state: what the most recently loaded local configuration says to
/// those who serve requests, and the handle to the cache store.
pub struct ShareConfig {
    redis_client: redis::Client,
    upstream: UrlTable,
    rules: Rules,
    proxies: Proxies,
    groups: Vec<ProxyGroup>,
    keyword: Keyword,
    test_url: String,
    manual_insert_proxies: Vec<String>,
}

/// What a `ShareConfig` holds.
pub struct ShareConfigView {
    pub redis_client: redis::Client,
    pub upstream: Map<Seq<char>, UrlConfigView>,
    pub rules: Seq<Seq<char>>,
    pub proxies: Seq<serde_yaml::Value>,
    pub groups: Seq<ProxyGroupView>,
    pub keyword: KeywordView,
    pub test_url: Seq<char>,
    pub manual_insert_proxies: Seq<Seq<char>>,
}

impl View for ShareConfig {
    type V = ShareConfigView;

    closed spec fn view(&self) -> ShareConfigView {
        ShareConfigView {
            redis_client: self.redis_client,
            upstream: self.upstream@,
            rules: self.rules@,
            proxies: self.proxies@,
            groups: groups(self.groups@),
            keyword: self.keyword@,
            test_url: self.test_url@,
            manual_insert_proxies: texts(self.manual_insert_proxies@),
        }
    }
}

/// The live state that a local configuration makes, with the given handle:
/// every part of it is taken from that configuration.
pub open spec fn share_config_of(
    configure: ConfigureView,
    redis_client: redis::Client,
) -> ShareConfigView {
    ShareConfigView {
        redis_client,
        upstream: url_table_of(configure.upstream),
        rules: configure.rules,
        proxies: configure.proxies,
        groups: configure.proxy_groups,
        keyword: configure.keyword,
        test_url: configure.test_url,
        manual_insert_proxies: configure.manual_add_group_name,
    }
}

/// The line that sums up a live state.
pub open spec fn briefing_text(subscriptions: nat, rules: nat, proxies: nat, groups: nat) -> Seq<
    char,
> {
    "Find "@ + decimal(subscriptions) + " subscriptions, "@ + decimal(rules) + " rules, "@
        + decimal(proxies) + " proxies, "@ + decimal(groups) + " groups"@
}

/// What the task that reloads does next.
#[derive(Clone, Copy, Debug, PartialEq, Eq, Structural)]
pub enum UpdaterAction {
    /// Read the configuration file again and hand the outcome to `reload`.
    Reload,
    /// Leave the loop.
    Exit,
}

impl ShareConfig {
    pub fn redis_client(&self) -> (r: &redis::Client)
        ensures
            *r == self@.redis_client,
    {
        &self.redis_client
    }

    /// The subscription that clients ask for under `key`.
    pub fn search_url(&self, key: &str) -> (r: Option<&UrlConfig>)
        ensures
            r is Some == self@.upstream.contains_key(key@),
            r is Some ==> r->0@ == self@.upstream[key@],
    {
        self.upstream.url_of(key)
    }

    pub fn new(local_configure: Configure, redis_client: redis::Client) -> (r: Self)
        ensures
            r@ == share_config_of(local_configure@, redis_client),
    {
        ShareConfig {
            upstream: Self::upstreams_into_hashmap(local_configure.upstream()),
            rules: local_configure.rules().clone(),
            proxies: local_configure.proxies().clone(),
            keyword: local_configure.keyword().clone(),
            redis_client,
            groups: copy_groups(local_configure.proxy_groups()),
            test_url: local_configure.test_url(),
            manual_insert_proxies: local_configure.need_added_proxy(),
        }
    }

    pub fn rules(&self) -> (r: &Rules)
        ensures
            r@ == self@.rules,
    {
        &self.rules
    }

    pub fn proxies(&self) -> (r: &Proxies)
        ensures
            r@ == self@.proxies,
    {
        &self.proxies
    }

    pub fn keyword(&self) -> (r: &Keyword)
        ensures
            r@ == self@.keyword,
    {
        &self.keyword
    }

    pub fn test_url(&self) -> (r: String)
        ensures
            r@ == self@.test_url,
    {
        self.test_url.clone()
    }

    /// The subscriptions by their id: a later one stands in place of an
    /// earlier one with the same id.
    pub fn upstreams_into_hashmap(v: &Vec<UpStream>) -> (r: UrlTable)
        ensures
            r@ == url_table_of(upstreams(v@)),
    {
        let mut m = UrlTable::new();
        let mut i: usize = 0;
        assert(upstreams(v@).take(0) =~= Seq::empty());
        while i < v.len()
            invariant
                i <= v.len(),
                m@ == url_table_of(upstreams(v@).take(i as int)),
            decreases v.len() - i,
        {
            let ghost next = upstreams(v@).take(i + 1);
            assert(next.drop_last() =~= upstreams(v@).take(i as int));
            assert(next.last() == v@[i as int]@);
            m.insert(v[i].sub_id().to_owned(), UrlConfig::from(&v[i]));
            i += 1;
        }
        assert(upstreams(v@).take(v.len() as int) =~= upstreams(v@));
        m
    }

    /// Puts the newly loaded configuration in place of the old one. Every
    /// part of the state is replaced; only the handle to the cache store
    /// stays.
    pub fn update(&mut self, local_configure: Configure)
        ensures
            final(self)@ == share_config_of(local_configure@, old(self)@.redis_client),
    {
        self.upstream = Self::upstreams_into_hashmap(local_configure.upstream());
        self.rules = local_configure.rules().clone();
        self.keyword = local_configure.keyword().clone();
        self.proxies = local_configure.proxies().clone();
        self.groups = copy_groups(local_configure.proxy_groups());
        self.test_url = local_configure.test_url();
        self.manual_insert_proxies = local_configure.need_added_proxy();
    }

    /// Ends one reload: a configuration that was read and parsed replaces the
    /// state, and the answer is `true`; where reading or parsing failed the
    /// state stays as it was, and the answer is `false`.
    pub fn reload(&mut self, loaded: Option<Configure>) -> (replaced: bool)
        ensures
            replaced == loaded is Some,
            final(self)@ == match loaded {
                Some(configure) => share_config_of(configure@, old(self)@.redis_client),
                None => old(self)@,
            },
    {
        match loaded {
            Some(configure) => {
                self.update(configure);
                true
            },
            None => false,
        }
    }

    /// What the task that reloads does on what it received: a request to
    /// update starts a reload, a request to terminate and the end of the
    /// channel both end the task.
    pub fn configure_file_updater(event: Option<UpdateConfigureEvent>) -> (action: UpdaterAction)
        ensures
            action == match event {
                Some(UpdateConfigureEvent::NeedUpdate) => UpdaterAction::Reload,
                Some(UpdateConfigureEvent::Terminate) => UpdaterAction::Exit,
                None => UpdaterAction::Exit,
            },
    {
        match event {
            Some(UpdateConfigureEvent::NeedUpdate) => UpdaterAction::Reload,
            Some(UpdateConfigureEvent::Terminate) => UpdaterAction::Exit,
            None => UpdaterAction::Exit,
        }
    }

    /// A line that says how much the state holds.
    pub fn briefing(&self) -> (r: String)
        ensures
            self@.upstream.dom().finite(),
            r@ == briefing_text(
                self@.upstream.dom().len(),
                self@.rules.len(),
                self@.proxies.len(),
                self@.groups.len(),
            ),
    {
        let mut out = "Find ".to_owned();
        out.append(decimal_text(self.upstream.len() as u64).as_str());
        out.append(" subscriptions, ");
        out.append(decimal_text(self.rules.len() as u64).as_str());
        out.append(" rules, ");
        out.append(decimal_text(self.proxies.len() as u64).as_str());
        out.append(" proxies, ");
        out.append(decimal_text(self.groups.len() as u64).as_str());
        out.append(" groups");
        out
    }

    pub fn manual_insert_proxies(&self) -> (r: &Vec<String>)
        ensures
            texts(r@) == self@.manual_insert_proxies,
    {
        &self.manual_insert_proxies
    }

    pub fn groups(&self) -> (r: &Vec<ProxyGroup>)
        ensures
            groups(r@) == self@.groups,
    {
        &self.groups
    }
}

} // verus!
