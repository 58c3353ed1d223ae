//! Open keyed documents: what the library reads from, and writes to, a YAML
//! value that it otherwise only carries along.

use vstd::prelude::*;
use crate::text::opt_view;

verus! {

/// `serde_yaml::Value`, declared so that it can stand in signatures and
/// fields. Nothing inside such a value is visible to the proofs.
#[verifier::external_type_specification]
#[verifier::external_body]
pub struct ExValue(serde_yaml::Value);

/// The string entries of a document as a direct pattern match finds them:
/// where the value is a mapping that carries no tag, each string key whose
/// value is a string that carries no tag, with that string. Empty for every
/// other value.
pub uninterp spec fn plain_entries(value: serde_yaml::Value) -> Map<Seq<char>, Seq<char>>;

/// The string entries of a document as indexing finds them: the same as
/// `plain_entries`, but looking through any tags on the mapping and on the
/// values it holds.
pub uninterp spec fn text_entries(value: serde_yaml::Value) -> Map<Seq<char>, Seq<char>>;

/// The string keys of a document, whatever they hold: where the value is a
/// mapping, looking through any tags on it, each of its keys that is a
/// string. Empty for every other value.
pub uninterp spec fn entry_keys(value: serde_yaml::Value) -> Set<Seq<char>>;

/// What a document holds under a string key, whatever kind of value it is:
/// where the value is a mapping, looking through any tags on it, the value
/// under that key; `None` where there is no such key, and for every value
/// that is no mapping.
pub uninterp spec fn entry_at(value: serde_yaml::Value, key: Seq<char>) -> Option<
    serde_yaml::Value,
>;

/// The document that an assignment through a string index makes of `value`:
/// `value` with the string `text` under `key`, and nothing else changed.
pub uninterp spec fn written(
    value: serde_yaml::Value,
    key: Seq<char>,
    text: Seq<char>,
) -> serde_yaml::Value;

/// What `entries` holds under `key`, if anything.
pub open spec fn lookup(entries: Map<Seq<char>, Seq<char>>, key: Seq<char>) -> Option<Seq<char>> {
    if entries.contains_key(key) {
        Some(entries[key])
    } else {
        None
    }
}

/// The name of a document: the string under the key `name` of an untagged
/// mapping.
pub open spec fn document_name(value: serde_yaml::Value) -> Option<Seq<char>> {
    lookup(plain_entries(value), "name"@)
}

/// The untagged string under a key of an untagged mapping. Trusted: the body
/// matches on `serde_yaml::Value` and calls `Mapping::get`; the contract says
/// that it returns the entry of `plain_entries` under `key`, and `None` where
/// the value is no such mapping, has no such key, or holds something else
/// than an untagged string there.
#[verifier::external_body]
pub(crate) fn plain_at(value: &serde_yaml::Value, key: &str) -> (text: Option<String>)
    ensures
        opt_view(text) == lookup(plain_entries(*value), key@),
{
    match value {
        serde_yaml::Value::Mapping(map) => match map.get(key) {
            Some(serde_yaml::Value::String(s)) => Some(s.clone()),
            _ => None,
        },
        _ => None,
    }
}

/// The name of a document.
pub fn get_name(value: &serde_yaml::Value) -> (name: Option<String>)
    ensures
        opt_view(name) == document_name(*value),
{
    plain_at(value, "name")
}

/// The string that a document holds under `key`. Trusted: the body indexes a
/// `serde_yaml::Value` by a string and calls `Value::as_str`, both of which
/// look through tags; the contract says that the result is the entry of
/// `text_entries` under `key`, and `None` where there is none.
#[verifier::external_body]
pub(crate) fn text_at(value: &serde_yaml::Value, key: &str) -> (text: Option<String>)
    ensures
        opt_view(text) == lookup(text_entries(*value), key@),
{
    value[key].as_str().map(String::from)
}

/// Whether a document has the key, whatever it holds there. Trusted: the
/// body calls `Value::get` with a string, which looks through tags on the
/// mapping; the contract says that the answer is whether `key` is among
/// `entry_keys`.
#[verifier::external_body]
pub(crate) fn has_entry(value: &serde_yaml::Value, key: &str) -> (found: bool)
    ensures
        found == entry_keys(*value).contains(key@),
{
    value.get(key).is_some()
}

/// Writes a string under a key that already holds one. Trusted: the body
/// assigns through `IndexMut` of `serde_yaml::Value`, which panics on values
/// that are neither a mapping nor null; the precondition leaves those out.
/// The contract gives the document after the write the name `written`, and
/// says of it that the entry under `key` is `text`, untagged, that the keys
/// are the same, and that under every other key it holds what it held.
#[verifier::external_body]
pub(crate) fn set_text_at(value: &mut serde_yaml::Value, key: &str, text: &str)
    requires
        text_entries(*old(value)).contains_key(key@),
    ensures
        *final(value) == written(*old(value), key@, text@),
        text_entries(*final(value)) == text_entries(*old(value)).insert(key@, text@),
        plain_entries(*final(value)).remove(key@) == plain_entries(*old(value)).remove(key@),
        entry_keys(*final(value)) == entry_keys(*old(value)),
        forall|other: Seq<char>|
            other != key@ ==> #[trigger] entry_at(*final(value), other) == entry_at(
                *old(value),
                other,
            ),
{
    value[key] = text.into();
}

/// A copy of a document. Trusted: the body calls `Value::clone`; the contract
/// says that the copy equals the value it was made of.
#[verifier::external_body]
pub(crate) fn copy_of(value: &serde_yaml::Value) -> (copy: serde_yaml::Value)
    ensures
        copy == *value,
{
    value.clone()
}

/// A copy of a list of documents.
pub fn copy_documents(list: &Vec<serde_yaml::Value>) -> (copy: Vec<serde_yaml::Value>)
    ensures
        copy@ == list@,
{
    let mut copy: Vec<serde_yaml::Value> = Vec::new();
    let mut i: usize = 0;
    while i < list.len()
        invariant
            i <= list.len(),
            copy@ == list@.take(i as int),
        decreases list.len() - i,
    {
        copy.push(copy_of(&list[i]));
        i += 1;
        assert(copy@ =~= list@.take(i as int));
    }
    assert(list@.take(list.len() as int) =~= list@);
    copy
}

} // verus!
