use vstd::prelude::*;
use crate::document::{
    copy_documents, entry_at, entry_keys, has_entry, lookup, plain_entries, set_text_at, text_at,
    text_entries, written,
};
use crate::text::opt_view;
use crate::{DIALER_PROXY_KEY, PASSWORD_KEY, PLACEHOLDER};

verus! {

/// The closed form of a proxy record: the fields that a complete record
/// has, as plain values.
pub struct Proxy {
    name: String,
    type_: String,
    server: String,
    port: u16,
    cipher: String,
    password: String,
    dialer_proxy: Option<String>,
    udp: bool,
}

/// What a `Proxy` holds.
pub struct ProxyView {
    pub name: Seq<char>,
    pub kind: Seq<char>,
    pub server: Seq<char>,
    pub port: u16,
    pub cipher: Seq<char>,
    pub password: Seq<char>,
    pub dialer_proxy: Option<Seq<char>>,
    pub udp: bool,
}

impl View for Proxy {
    type V = ProxyView;

    closed spec fn view(&self) -> ProxyView {
        ProxyView {
            name: self.name@,
            kind: self.type_@,
            server: self.server@,
            port: self.port,
            cipher: self.cipher@,
            password: self.password@,
            dialer_proxy: opt_view(self.dialer_proxy),
            udp: self.udp,
        }
    }
}

/// Whether a document names the placeholder as the proxy to dial through.
pub open spec fn has_placeholder(document: serde_yaml::Value) -> bool {
    lookup(text_entries(document), DIALER_PROXY_KEY@) == Some(PLACEHOLDER@)
}

/// A document after the placeholder in it, if it has one, was replaced by
/// `target`: the target is written under the dialer key; a document without
/// the placeholder is the same document.
pub open spec fn replaced_document(
    document: serde_yaml::Value,
    target: Seq<char>,
) -> serde_yaml::Value {
    if has_placeholder(document) {
        written(document, DIALER_PROXY_KEY@, target)
    } else {
        document
    }
}

/// What holds of a document whose placeholder was replaced by `target`: the
/// dialer entry is `target`, the keys are the same, and under every other
/// key the document holds what it held.
pub open spec fn dialer_written(
    before: serde_yaml::Value,
    after: serde_yaml::Value,
    target: Seq<char>,
) -> bool {
    &&& text_entries(after) == text_entries(before).insert(DIALER_PROXY_KEY@, target)
    &&& plain_entries(after).remove(DIALER_PROXY_KEY@) == plain_entries(before).remove(
        DIALER_PROXY_KEY@,
    )
    &&& entry_keys(after) == entry_keys(before)
    &&& forall|other: Seq<char>|
        other != DIALER_PROXY_KEY@ ==> #[trigger] entry_at(after, other) == entry_at(before, other)
}

/// Whether the password of a document is empty: the document has no entry
/// for the password, or holds the empty string there. A record with an empty
/// password is a template, and is never handed on.
pub open spec fn is_template(document: serde_yaml::Value) -> bool {
    !entry_keys(document).contains(PASSWORD_KEY@) || lookup(
        text_entries(document),
        PASSWORD_KEY@,
    ) == Some(Seq::<char>::empty())
}

/// The name under which a template is listed in groups: the string that a
/// document with an empty password holds as its name.
pub open spec fn template_name(document: serde_yaml::Value) -> Option<Seq<char>> {
    if is_template(document) {
        lookup(text_entries(document), "name"@)
    } else {
        None
    }
}

impl Proxy {
    pub fn new(
        name: String,
        type_: String,
        server: String,
        port: u16,
        cipher: String,
        password: String,
        dialer_proxy: Option<String>,
        udp: bool,
    ) -> (r: Self)
        ensures
            r@ == (ProxyView {
                name: name@,
                kind: type_@,
                server: server@,
                port,
                cipher: cipher@,
                password: password@,
                dialer_proxy: opt_view(dialer_proxy),
                udp,
            }),
    {
        Proxy { name, type_, server, port, cipher, password, dialer_proxy, udp }
    }

    pub fn password(&self) -> (r: &str)
        ensures
            r@ == self@.password,
    {
        self.password.as_str()
    }

    /// Puts `target` in place of the placeholder, where the document names the
    /// placeholder as its dialer; any other document is left as it is.
    pub fn replace_dialer_proxy(value: &mut serde_yaml::Value, target: &str)
        ensures
            *final(value) == replaced_document(*old(value), target@),
            has_placeholder(*old(value)) ==> dialer_written(*old(value), *final(value), target@),
    {
        let has_placeholder = match text_at(value, DIALER_PROXY_KEY) {
            Some(v) => v.as_str().eq(PLACEHOLDER),
            None => false,
        };
        if has_placeholder {
            set_text_at(value, DIALER_PROXY_KEY, target);
        }
    }

    /// Whether the password of the document is empty.
    pub fn has_empty_password(value: &serde_yaml::Value) -> (empty: bool)
        ensures
            empty == is_template(*value),
    {
        if !has_entry(value, PASSWORD_KEY) {
            return true;
        }
        match text_at(value, PASSWORD_KEY) {
            Some(password) => {
                assert(password@.len() == 0 <==> password@ =~= Seq::<char>::empty());
                password.as_str().is_empty()
            },
            None => false,
        }
    }

    /// The name of the document if its password is empty.
    pub fn is_empty_password(value: serde_yaml::Value) -> (name: Option<String>)
        ensures
            opt_view(name) == template_name(value),
    {
        if Self::has_empty_password(&value) {
            text_at(&value, "name")
        } else {
            None
        }
    }
}

impl Clone for Proxy {
    fn clone(&self) -> (r: Self)
        ensures
            r@ == self@,
    {
        Proxy {
            name: self.name.clone(),
            type_: self.type_.clone(),
            server: self.server.clone(),
            port: self.port,
            cipher: self.cipher.clone(),
            password: self.password.clone(),
            dialer_proxy: self.dialer_proxy.clone(),
            udp: self.udp,
        }
    }
}

/// An ordered list of proxy records, each an open document that is carried
/// along as it came.
pub struct Proxies(pub Vec<serde_yaml::Value>);

impl View for Proxies {
    type V = Seq<serde_yaml::Value>;

    open spec fn view(&self) -> Seq<serde_yaml::Value> {
        self.0@
    }
}

impl Proxies {
    pub fn get_vec(&self) -> (r: &Vec<serde_yaml::Value>)
        ensures
            *r == self.0,
    {
        &self.0
    }

    pub fn set_vec(&mut self, v: Vec<serde_yaml::Value>) -> (r: &mut Self)
        ensures
            r.0 == v,
            *final(self) == *final(r),
    {
        self.0 = v;
        self
    }

    pub fn len(&self) -> (n: usize)
        ensures
            n == self@.len(),
    {
        self.0.len()
    }
}

impl Clone for Proxies {
    fn clone(&self) -> (r: Self)
        ensures
            r@ == self@,
    {
        Proxies(copy_documents(&self.0))
    }
}

} // verus!
