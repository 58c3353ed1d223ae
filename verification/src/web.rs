//! What is answered to a request: which subscription it names, what has to be
//! fetched for it, and the reply that is written.

use vstd::prelude::*;
use vstd::std_specs::convert::FromSpecImpl;
use vstd::string::StringExecFns;
use crate::cache::{parse_remote_configure, FileCache};
use crate::merge::{
    all_named, applicable, apply_change, group_named, lemma_selectors_served, merged, reports,
    MergeError, Merged,
};
use crate::{DEFAULT_FORCE_PROXY_OR_DIRECT_NAME, DEFAULT_PROXY_OR_DIRECT_NAME};
use crate::document::document_name;
use crate::parser::remote_configure::{
    pruned_groups, template_names, RemoteConfigure, RemoteConfigureView,
};
use crate::parser::share_config::{
    override_view, rewritten, OverridableValue, OverridableValueView, ShareConfig,
    ShareConfigView, UrlConfig, UrlConfigView,
};
use crate::text::opt_view;

verus! {

/// The digest of a text as `sha256::digest` gives it: the SHA-256 hash of the
/// text's UTF-8 bytes, written in hexadecimal.
pub uninterp spec fn sha256_hex(input: Seq<char>) -> Seq<char>;

/// The digest of a text. Trusted: the body calls `sha256::digest`, which
/// depends on its argument alone; the contract gives its result the name
/// `sha256_hex`.
#[verifier::external_body]
fn digest(input: &str) -> (r: String)
    ensures
        r@ == sha256_hex(input@),
{
    sha256::digest(input)
}

/// The value of the query parameter `method` that asks for the subscription
/// document as it is, unmerged.
pub const RAW_METHOD: &'static str = "raw";

/// The header under which quota figures come from the upstream and go to the
/// client.
pub const QUOTA_HEADER: &'static str = "subscription-userinfo";

/// The query of a request.
pub struct QueryParams {
    method: Option<String>,
}

impl QueryParams {
    pub fn new(method: Option<String>) -> (r: Self)
        ensures
            opt_view(r.method_spec()) == opt_view(method),
    {
        QueryParams { method }
    }

    pub closed spec fn method_spec(&self) -> Option<String> {
        self.method
    }

    /// The method that the query names; the empty text where it names none.
    pub fn method(&self) -> (r: String)
        ensures
            r@ == match opt_view(self.method_spec()) {
                Some(m) => m,
                None => Seq::empty(),
            },
    {
        match &self.method {
            Some(m) => m.clone(),
            None => String::new(),
        }
    }
}

/// Why a request is not served.
#[derive(Clone, Copy, Debug, PartialEq, Eq, Structural)]
pub enum ErrorCode {
    Forbidden,
    InternalServerError,
    RequestTimeout,
    NotAcceptable,
}

impl From<()> for ErrorCode {
    fn from(_value: ()) -> (r: Self) {
        ErrorCode::InternalServerError
    }
}

impl FromSpecImpl<()> for ErrorCode {
    open spec fn obeys_from_spec() -> bool {
        true
    }

    open spec fn from_spec(_value: ()) -> Self {
        ErrorCode::InternalServerError
    }
}

/// The status with which an error is answered.
pub open spec fn status_of(code: ErrorCode) -> u16 {
    match code {
        ErrorCode::Forbidden => 403,
        ErrorCode::InternalServerError => 500,
        ErrorCode::RequestTimeout => 408,
        ErrorCode::NotAcceptable => 406,
    }
}

/// The text with which an error is answered.
pub open spec fn message_of(code: ErrorCode) -> Seq<char> {
    match code {
        ErrorCode::Forbidden => "403 forbidden"@,
        ErrorCode::InternalServerError => "500 internal server error"@,
        ErrorCode::RequestTimeout => "408 Request Timeout"@,
        ErrorCode::NotAcceptable => "406 Not Acceptable"@,
    }
}

/// A reply: its status, its headers in the order in which they are written,
/// and its body.
pub struct Reply {
    status: u16,
    headers: Vec<(String, String)>,
    body: String,
}

/// What a `Reply` holds.
pub struct ReplyView {
    pub status: u16,
    pub headers: Seq<(Seq<char>, Seq<char>)>,
    pub body: Seq<char>,
}

/// The headers of a list, as texts.
pub open spec fn header_views(list: Seq<(String, String)>) -> Seq<(Seq<char>, Seq<char>)> {
    Seq::new(list.len(), |i: int| (list[i].0@, list[i].1@))
}

impl View for Reply {
    type V = ReplyView;

    closed spec fn view(&self) -> ReplyView {
        ReplyView { status: self.status, headers: header_views(self.headers@), body: self.body@ }
    }
}

impl Reply {
    pub fn status(&self) -> (r: u16)
        ensures
            r == self@.status,
    {
        self.status
    }

    pub fn headers(&self) -> (r: &Vec<(String, String)>)
        ensures
            header_views(r@) == self@.headers,
    {
        &self.headers
    }

    pub fn body(&self) -> (r: &str)
        ensures
            r@ == self@.body,
    {
        self.body.as_str()
    }

    pub fn into_body(self) -> (r: String)
        ensures
            r@ == self@.body,
    {
        self.body
    }
}

/// A reply without headers.
pub fn build_body(code: u16, msg: &str) -> (r: Reply)
    ensures
        r@ == (ReplyView { status: code, headers: Seq::empty(), body: msg@ }),
{
    let r = Reply { status: code, headers: Vec::new(), body: msg.to_owned() };
    assert(r@.headers =~= Seq::empty());
    r
}

pub fn forbidden() -> (r: Reply)
    ensures
        r@ == (ReplyView { status: 403, headers: Seq::empty(), body: "403 forbidden"@ }),
{
    build_body(403, "403 forbidden")
}

pub fn internal_server_error() -> (r: Reply)
    ensures
        r@ == (ReplyView {
            status: 500,
            headers: Seq::empty(),
            body: "500 internal server error"@,
        }),
{
    build_body(500, "500 internal server error")
}

pub fn request_timeout() -> (r: Reply)
    ensures
        r@ == (ReplyView { status: 408, headers: Seq::empty(), body: "408 Request Timeout"@ }),
{
    build_body(408, "408 Request Timeout")
}

pub fn not_acceptable() -> (r: Reply)
    ensures
        r@ == (ReplyView { status: 406, headers: Seq::empty(), body: "406 Not Acceptable"@ }),
{
    build_body(406, "406 Not Acceptable")
}

/// The reply that an error is answered with.
pub open spec fn error_reply(code: ErrorCode) -> ReplyView {
    ReplyView { status: status_of(code), headers: Seq::empty(), body: message_of(code) }
}

/// What has to be fetched to serve a request, and under which key the store
/// may hold it.
pub struct FetchPlan {
    remote_url: String,
    redis_key: String,
    raw: bool,
    sub_override: Option<OverridableValue>,
}

/// What a `FetchPlan` holds.
pub struct FetchPlanView {
    pub remote_url: Seq<char>,
    pub redis_key: Seq<char>,
    pub raw: bool,
    pub sub_override: Option<OverridableValueView>,
}

impl View for FetchPlan {
    type V = FetchPlanView;

    closed spec fn view(&self) -> FetchPlanView {
        FetchPlanView {
            remote_url: self.remote_url@,
            redis_key: self.redis_key@,
            raw: self.raw,
            sub_override: override_view(self.sub_override),
        }
    }
}

/// The key under which the store holds what was fetched for a subscription:
/// the digest of its address, and for the raw document the digest of the
/// address with `raw` behind it.
pub open spec fn cache_key(upstream: Seq<char>, raw: bool) -> Seq<char> {
    if raw {
        sha256_hex(upstream + RAW_METHOD@)
    } else {
        sha256_hex(upstream)
    }
}

/// The address that is fetched: for the raw document the subscription's raw
/// address where it has one; in every other case its upstream address.
pub open spec fn fetch_address(config: UrlConfigView, raw: bool) -> Seq<char> {
    if raw && config.raw is Some {
        config.raw->0
    } else {
        config.upstream
    }
}

/// The plan for a subscription and a method.
pub open spec fn planned(config: UrlConfigView, method: Seq<char>) -> FetchPlanView {
    let raw = method == RAW_METHOD@;
    FetchPlanView {
        remote_url: fetch_address(config, raw),
        redis_key: cache_key(config.upstream, raw),
        raw,
        sub_override: config.sub_override,
    }
}

impl FetchPlan {
    pub fn remote_url(&self) -> (r: &str)
        ensures
            r@ == self@.remote_url,
    {
        self.remote_url.as_str()
    }

    pub fn redis_key(&self) -> (r: &str)
        ensures
            r@ == self@.redis_key,
    {
        self.redis_key.as_str()
    }

    pub fn raw(&self) -> (r: bool)
        ensures
            r == self@.raw,
    {
        self.raw
    }

    pub fn sub_override(&self) -> (r: Option<OverridableValue>)
        ensures
            override_view(r) == self@.sub_override,
    {
        self.sub_override
    }
}

/// Decides what to fetch for a request: nothing, and `Forbidden`, where the
/// live state knows no subscription under `sub_id`; else the address and the
/// key that the subscription and the method give.
pub fn plan_request(share_config: &ShareConfig, sub_id: &str, method: &str) -> (r: Result<
    FetchPlan,
    ErrorCode,
>)
    ensures
        match r {
            Ok(plan) => share_config@.upstream.contains_key(sub_id@) && plan@ == planned(
                share_config@.upstream[sub_id@],
                method@,
            ),
            Err(code) => code == ErrorCode::Forbidden && !share_config@.upstream.contains_key(
                sub_id@,
            ),
        },
{
    let mapper = match share_config.search_url(sub_id) {
        Some(mapper) => mapper,
        None => {
            return Err(ErrorCode::Forbidden);
        },
    };
    let raw = method.eq(RAW_METHOD);
    let redis_key = if !raw {
        digest(mapper.upstream())
    } else {
        let mut salted = mapper.upstream().to_owned();
        salted.append(RAW_METHOD);
        digest(salted.as_str())
    };
    let remote_url = if raw {
        match mapper.raw() {
            Some(s) => s.to_owned(),
            None => mapper.upstream().to_owned(),
        }
    } else {
        mapper.upstream().to_owned()
    };
    Ok(FetchPlan { remote_url, redis_key, raw, sub_override: mapper.sub_override() })
}

/// The quota figures that go to the client: those that came from the
/// upstream, with the subscription's override applied where it has one.
pub open spec fn quota_for(plan: FetchPlanView, remote_status: Seq<char>) -> Seq<char> {
    match plan.sub_override {
        Some(ov) => rewritten(ov, remote_status),
        None => remote_status,
    }
}

/// The quota figures that go to the client.
pub fn rewrite_status(plan: &FetchPlan, remote_status: String) -> (r: String)
    ensures
        r@ == quota_for(plan@, remote_status@),
{
    match plan.sub_override() {
        Some(rewrite_config) => rewrite_config.rewrite(remote_status),
        None => remote_status,
    }
}

/// The file name under which the client is told to store the document.
pub open spec fn disposition(sub_id: Seq<char>) -> Seq<char> {
    "attachment; filename=Clash_"@ + sub_id + ".yaml"@
}

/// The reply that carries a document: status 200, the quota figures where
/// there are any, and the file name.
pub open spec fn document_reply(sub_id: Seq<char>, quota: Seq<char>, body: Seq<char>) -> ReplyView {
    ReplyView {
        status: 200,
        headers: if quota.len() == 0 {
            seq![("content-disposition"@, disposition(sub_id))]
        } else {
            seq![(QUOTA_HEADER@, quota), ("content-disposition"@, disposition(sub_id))]
        },
        body,
    }
}

/// Writes the reply that carries a document. There is no document where the
/// merged configuration could not be written out; that is answered as an
/// internal error.
pub fn respond(sub_id: &str, remote_status: String, body: Option<String>) -> (r: Result<
    Reply,
    ErrorCode,
>)
    ensures
        match r {
            Ok(reply) => body is Some && reply@ == document_reply(
                sub_id@,
                remote_status@,
                body->0@,
            ),
            Err(code) => body is None && code == ErrorCode::InternalServerError,
        },
{
    let body = match body {
        Some(body) => body,
        None => {
            return Err(ErrorCode::from(()));
        },
    };
    let mut headers: Vec<(String, String)> = Vec::new();
    if !remote_status.as_str().is_empty() {
        headers.push((QUOTA_HEADER.to_owned(), remote_status));
    }
    let mut name = "attachment; filename=Clash_".to_owned();
    name.append(sub_id);
    name.append(".yaml");
    headers.push(("content-disposition".to_owned(), name));
    let reply = Reply { status: 200, headers, body };
    assert(reply@.headers =~= document_reply(sub_id@, remote_status@, body@).headers);
    Ok(reply)
}

/// The document that a merge starts from: the subscription document as it
/// was parsed, without the names of its templates in its groups.
pub open spec fn optimized(parsed: RemoteConfigureView) -> RemoteConfigureView {
    RemoteConfigureView {
        proxy_groups: pruned_groups(parsed.proxy_groups, template_names(parsed.proxies)),
        ..parsed
    }
}

/// Makes the document to serve from what was fetched and parsed. A document
/// that did not parse is `NotAcceptable`; a merge that fails, which it does
/// exactly where a local record carries no name, is an internal error.
pub fn merge_fetched(sub_id: &str, parsed: Option<RemoteConfigure>, share_config: &ShareConfig) -> (r:
    Result<Merged, ErrorCode>)
    ensures
        match r {
            Ok(m) => {
                &&& parsed is Some
                &&& all_named(share_config@.proxies)
                &&& reports(m, optimized(parsed->0@), share_config@, sub_id@)
            },
            Err(code) => code == (if parsed is None {
                ErrorCode::NotAcceptable
            } else {
                ErrorCode::InternalServerError
            }) && (parsed is Some ==> !all_named(share_config@.proxies)),
        },
{
    let remote = parse_remote_configure(parsed)?;
    match apply_change(sub_id, remote, share_config) {
        Ok(m) => Ok(m),
        Err(MergeError::UnnamedLocalProxy(at)) => {
            proof {
                let list = share_config@.proxies;
                if all_named(list) {
                    assert(document_name(list[at as int]) is Some);
                }
            }
            Err(ErrorCode::InternalServerError)
        },
    }
}

/// A request that is served is answered with status 200 and the document as
/// its body, and both selectors are among the groups of that document: this
/// holds of every merge, so of every request for a known subscription whose
/// document parsed, where each local record has a name.
pub proof fn lemma_request_served(
    share_config: ShareConfigView,
    sub_id: Seq<char>,
    parsed: RemoteConfigureView,
    out: RemoteConfigureView,
    quota: Seq<char>,
    body: Seq<char>,
)
    requires
        merged(out, optimized(parsed), share_config, sub_id),
    ensures
        document_reply(sub_id, quota, body).status == 200,
        document_reply(sub_id, quota, body).body == body,
        group_named(out.proxy_groups, DEFAULT_FORCE_PROXY_OR_DIRECT_NAME@),
        group_named(out.proxy_groups, DEFAULT_PROXY_OR_DIRECT_NAME@),
{
    let remote = optimized(parsed);
    lemma_selectors_served(out, remote, share_config, sub_id);
    let at: int = if remote.proxy_groups.len() > 0 {
        1int
    } else {
        1 + applicable(share_config.groups, sub_id).len() as int
    };
    assert(out.proxy_groups[0].name == DEFAULT_FORCE_PROXY_OR_DIRECT_NAME@);
    assert(out.proxy_groups[at].name == DEFAULT_PROXY_OR_DIRECT_NAME@);
}

/// The reply to a request, whether it was served or not.
pub fn get(outcome: Result<Reply, ErrorCode>) -> (r: Reply)
    ensures
        r@ == match outcome {
            Ok(reply) => reply@,
            Err(code) => error_reply(code),
        },
{
    match outcome {
        Ok(reply) => reply,
        Err(code) => match code {
            ErrorCode::Forbidden => forbidden(),
            ErrorCode::InternalServerError => internal_server_error(),
            ErrorCode::NotAcceptable => not_acceptable(),
            ErrorCode::RequestTimeout => request_timeout(),
        },
    }
}

} // verus!
