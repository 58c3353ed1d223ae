//! The subscription merge engine: from a subscription document and the live
//! state to the document that is served.

use vstd::prelude::*;
use crate::document::{copy_documents, copy_of, document_name, get_name};
use crate::parser::proxies::{
    dialer_written, has_placeholder, is_template, replaced_document, Proxy,
};
use crate::parser::proxy_groups::{
    copy_groups, groups, plain_group, ProxyGroup, ProxyGroupView,
};
use crate::parser::remote_configure::{RemoteConfigure, RemoteConfigureView};
use crate::parser::share_config::{ShareConfig, ShareConfigView};
use crate::text::{ascii_lower, copy_texts, holds_text, opt_view, texts};
use crate::{
    DEFAULT_FORCE_PROXY_OR_DIRECT_NAME, DEFAULT_PROXY_OR_DIRECT_NAME, DIRECT_NAME, PLACEHOLDER,
    SELECT_THRESHOLD,
};

verus! {

/// Whether every record of the list carries a name.
pub open spec fn all_named(list: Seq<serde_yaml::Value>) -> bool {
    forall|i: int| 0 <= i < list.len() ==> (#[trigger] document_name(list[i])) is Some
}

/// The names of the records, in their order.
pub open spec fn local_names(list: Seq<serde_yaml::Value>) -> Seq<Seq<char>> {
    Seq::new(list.len(), |i: int| document_name(list[i])->0)
}

/// Whether one of the groups has the name.
pub open spec fn group_named(list: Seq<ProxyGroupView>, name: Seq<char>) -> bool {
    exists|i: int| 0 <= i < list.len() && (#[trigger] list[i]).name == name
}

/// Those of the manually inserted names that are names of groups of the
/// subscription, in their order.
pub open spec fn matched(manual: Seq<Seq<char>>, list: Seq<ProxyGroupView>) -> Seq<Seq<char>>
    decreases manual.len(),
{
    if manual.len() == 0 {
        Seq::empty()
    } else if group_named(list, manual.last()) {
        matched(manual.drop_last(), list).push(manual.last())
    } else {
        matched(manual.drop_last(), list)
    }
}

/// The chain target: the last of the manually inserted names that is the
/// name of a group of the subscription.
pub open spec fn chain_target(manual: Seq<Seq<char>>, list: Seq<ProxyGroupView>) -> Option<
    Seq<char>,
> {
    if matched(manual, list).len() > 0 {
        Some(matched(manual, list).last())
    } else {
        None
    }
}

/// The selector over the local proxies alone.
pub open spec fn force_group(names: Seq<Seq<char>>) -> ProxyGroupView {
    plain_group(DEFAULT_FORCE_PROXY_OR_DIRECT_NAME@, "select"@, names)
}

/// The selector that offers the force selector, then the local proxies, then
/// the matched groups, and the pass-through target last.
pub open spec fn primary_group(names: Seq<Seq<char>>, picked: Seq<Seq<char>>) -> ProxyGroupView {
    plain_group(
        DEFAULT_PROXY_OR_DIRECT_NAME@,
        "select"@,
        (seq![DEFAULT_FORCE_PROXY_OR_DIRECT_NAME@] + names + picked).push(DIRECT_NAME@),
    )
}

/// Whether a group of the subscription is given the force selector: it is a
/// manual selector with more members than the threshold.
pub open spec fn is_large_select(group: ProxyGroupView) -> bool {
    group.kind == "select"@ && group.proxies.len() > SELECT_THRESHOLD
}

/// A group of the subscription as it is served: a large manual selector has
/// the force selector as its second member, any other group is unchanged.
pub open spec fn reachable(group: ProxyGroupView) -> ProxyGroupView {
    if is_large_select(group) {
        ProxyGroupView {
            proxies: group.proxies.insert(1, DEFAULT_FORCE_PROXY_OR_DIRECT_NAME@),
            ..group
        }
    } else {
        group
    }
}

/// Each group of the list, as it is served.
pub open spec fn reachable_groups(list: Seq<ProxyGroupView>) -> Seq<ProxyGroupView> {
    Seq::new(list.len(), |i: int| reachable(list[i]))
}

/// Whether a locally declared group applies to a subscription: never where
/// the subscription is excluded; else wherever the group names no
/// subscriptions, or names this one.
pub open spec fn applies(group: ProxyGroupView, sub_id: Seq<char>) -> bool {
    !group.not_apply_to.contains(sub_id) && (group.apply_to.len() == 0 || group.apply_to.contains(
        sub_id,
    ))
}

/// The groups of the list that apply to the subscription, in their order.
pub open spec fn applicable(list: Seq<ProxyGroupView>, sub_id: Seq<char>) -> Seq<ProxyGroupView>
    decreases list.len(),
{
    if list.len() == 0 {
        Seq::empty()
    } else if applies(list.last(), sub_id) {
        applicable(list.drop_last(), sub_id).push(list.last())
    } else {
        applicable(list.drop_last(), sub_id)
    }
}

/// The members with the chain target in place of each placeholder. Without a
/// chain target the placeholders stay.
pub open spec fn substituted_members(members: Seq<Seq<char>>, target: Option<Seq<char>>) -> Seq<
    Seq<char>,
> {
    match target {
        Some(t) => Seq::new(
            members.len(),
            |i: int|
                if members[i] == PLACEHOLDER@ {
                    t
                } else {
                    members[i]
                },
        ),
        None => members,
    }
}

/// A group with the chain target in place of each placeholder.
pub open spec fn substituted_group(group: ProxyGroupView, target: Option<Seq<char>>) -> ProxyGroupView {
    ProxyGroupView { proxies: substituted_members(group.proxies, target), ..group }
}

/// Each group of the list with the chain target in place of each placeholder.
pub open spec fn substituted_groups(list: Seq<ProxyGroupView>, target: Option<Seq<char>>) -> Seq<
    ProxyGroupView,
> {
    Seq::new(list.len(), |i: int| substituted_group(list[i], target))
}

/// How many of the members are the placeholder.
pub open spec fn placeholders(members: Seq<Seq<char>>) -> nat
    decreases members.len(),
{
    if members.len() == 0 {
        0
    } else if members.last() == PLACEHOLDER@ {
        placeholders(members.drop_last()) + 1
    } else {
        placeholders(members.drop_last())
    }
}

/// How many placeholders the groups of the list hold between them.
pub open spec fn placeholders_in(list: Seq<ProxyGroupView>) -> nat
    decreases list.len(),
{
    if list.len() == 0 {
        0
    } else {
        placeholders_in(list.drop_last()) + placeholders(list.last().proxies)
    }
}

/// How many placeholders a merge replaces: all of them where there is a chain
/// target, none where there is not.
pub open spec fn replaced_count(list: Seq<ProxyGroupView>, target: Option<Seq<char>>) -> nat {
    match target {
        Some(_) => placeholders_in(list),
        None => 0,
    }
}

/// `base` with `extra` put in immediately before its last element.
pub open spec fn spliced(base: Seq<ProxyGroupView>, extra: Seq<ProxyGroupView>) -> Seq<
    ProxyGroupView,
> {
    base.take(base.len() - 1) + extra + base.skip(base.len() - 1)
}

/// The groups that are served: the force selector, the primary selector and
/// the groups of the subscription, with the applicable local groups put in
/// immediately before the last of them.
pub open spec fn merged_groups(
    remote: Seq<ProxyGroupView>,
    local: ShareConfigView,
    sub_id: Seq<char>,
) -> Seq<ProxyGroupView> {
    let names = local_names(local.proxies);
    let picked = matched(local.manual_insert_proxies, remote);
    let target = chain_target(local.manual_insert_proxies, remote);
    spliced(
        seq![force_group(names), primary_group(names, picked)] + reachable_groups(remote),
        substituted_groups(applicable(local.groups, sub_id), target),
    )
}

/// The records of the list that are handed on, in their order: those whose
/// password is not empty.
pub open spec fn kept(list: Seq<serde_yaml::Value>) -> Seq<serde_yaml::Value>
    decreases list.len(),
{
    if list.len() == 0 {
        Seq::empty()
    } else if is_template(list.last()) {
        kept(list.drop_last())
    } else {
        kept(list.drop_last()).push(list.last())
    }
}

/// A local record as it is served: with the chain target in place of the
/// placeholder where there is a chain target, and as it was where there is
/// none.
pub open spec fn substituted_record(
    record: serde_yaml::Value,
    target: Option<Seq<char>>,
) -> serde_yaml::Value {
    match target {
        Some(t) => replaced_document(record, t),
        None => record,
    }
}

/// Each record of the list as it is served.
pub open spec fn substituted_records(
    list: Seq<serde_yaml::Value>,
    target: Option<Seq<char>>,
) -> Seq<serde_yaml::Value> {
    Seq::new(list.len(), |i: int| substituted_record(list[i], target))
}

/// Whether each served record whose placeholder was replaced holds, but for
/// its dialer, what the local record held.
pub open spec fn passed_through(
    out: Seq<serde_yaml::Value>,
    local: Seq<serde_yaml::Value>,
    target: Option<Seq<char>>,
) -> bool {
    forall|i: int|
        0 <= i < local.len() && target is Some && has_placeholder(#[trigger] local[i])
            ==> dialer_written(local[i], out[i], target->0)
}

/// The records that are served: the local records, each with the chain
/// target in place of the placeholder, then the records of the subscription
/// that are handed on, each as it came.
pub open spec fn merged_proxies(
    local: Seq<serde_yaml::Value>,
    remote: Seq<serde_yaml::Value>,
    target: Option<Seq<char>>,
) -> Seq<serde_yaml::Value> {
    substituted_records(local, target) + kept(remote)
}

/// What a merge makes of a subscription document `remote`, for the
/// subscription `sub_id`, under the live state `local`.
pub open spec fn merged(
    out: RemoteConfigureView,
    remote: RemoteConfigureView,
    local: ShareConfigView,
    sub_id: Seq<char>,
) -> bool {
    &&& out.proxy_groups == merged_groups(remote.proxy_groups, local, sub_id)
    &&& out.proxies == merged_proxies(
        local.proxies,
        remote.proxies,
        chain_target(local.manual_insert_proxies, remote.proxy_groups),
    )
    &&& passed_through(
        out.proxies,
        local.proxies,
        chain_target(local.manual_insert_proxies, remote.proxy_groups),
    )
    &&& out.rules == local.rules + remote.rules
    &&& out.mode == ascii_lower(remote.mode)
    &&& out.port == remote.port
    &&& out.socks_port == remote.socks_port
    &&& out.redir_port == remote.redir_port
    &&& out.allow_lan == remote.allow_lan
    &&& out.log_level == remote.log_level
    &&& out.external_controller == remote.external_controller
    &&& out.secret == remote.secret
}

/// Why a merge fails.
#[derive(Clone, Copy, Debug, PartialEq, Eq, Structural)]
pub enum MergeError {
    /// The local record at this index carries no name. It is the first such.
    UnnamedLocalProxy(usize),
}

/// What a merge hands back: the document to serve, and what there is to
/// report of the merge.
pub struct Merged {
    /// The document to serve.
    pub configure: RemoteConfigure,
    /// The chain target, if one was resolved. Without one the placeholders
    /// were left in place, which is worth a warning and is no error.
    pub chain_target: Option<String>,
    /// How many placeholders in local groups were replaced; the largest
    /// number that fits where there were more.
    pub replaced_relay: usize,
    /// How many records of the subscription were not handed on.
    pub dropped_records: usize,
}

/// The names of the records, where each has one; else the index of the first
/// that has none.
pub fn collect_names(list: &Vec<serde_yaml::Value>) -> (r: Result<Vec<String>, usize>)
    ensures
        match r {
            Ok(names) => all_named(list@) && texts(names@) == local_names(list@),
            Err(at) => {
                &&& at < list.len()
                &&& document_name(list@[at as int]) is None
                &&& all_named(list@.take(at as int))
            },
        },
{
    let mut names: Vec<String> = Vec::new();
    let mut i: usize = 0;
    while i < list.len()
        invariant
            i <= list.len(),
            names.len() == i,
            forall|j: int| 0 <= j < i ==> (#[trigger] document_name(list@[j])) is Some,
            forall|j: int| 0 <= j < i ==> names@[j]@ == document_name(list@[j])->0,
        decreases list.len() - i,
    {
        match get_name(&list[i]) {
            Some(name) => {
                names.push(name);
            },
            None => {
                return Err(i);
            },
        }
        i += 1;
    }
    proof {
        assert(texts(names@) =~= local_names(list@));
    }
    Ok(names)
}

/// Whether one of the groups has the name.
pub fn has_group_named(list: &Vec<ProxyGroup>, name: &str) -> (found: bool)
    ensures
        found == group_named(groups(list@), name@),
{
    let mut i: usize = 0;
    while i < list.len()
        invariant
            i <= list.len(),
            forall|j: int| 0 <= j < i ==> list@[j]@.name != name@,
        decreases list.len() - i,
    {
        if list[i].name().eq(name) {
            assert(groups(list@)[i as int].name == name@);
            return true;
        }
        i += 1;
    }
    proof {
        if group_named(groups(list@), name@) {
            let j = choose|j: int| 0 <= j < groups(list@).len() && (#[trigger] groups(list@)[j]).name == name@;
            assert(list@[j]@.name != name@);
        }
    }
    false
}

/// Those of the manually inserted names that are names of groups of the
/// subscription.
pub fn collect_matched(manual: &Vec<String>, list: &Vec<ProxyGroup>) -> (picked: Vec<String>)
    ensures
        texts(picked@) == matched(texts(manual@), groups(list@)),
{
    let mut picked: Vec<String> = Vec::new();
    let mut i: usize = 0;
    assert(texts(manual@).take(0) =~= Seq::empty());
    assert(texts(picked@) =~= Seq::empty());
    while i < manual.len()
        invariant
            i <= manual.len(),
            texts(picked@) == matched(texts(manual@).take(i as int), groups(list@)),
        decreases manual.len() - i,
    {
        let ghost before = texts(picked@);
        let ghost next = texts(manual@).take(i + 1);
        assert(next.drop_last() =~= texts(manual@).take(i as int));
        assert(next.last() == manual@[i as int]@);
        if has_group_named(list, manual[i].as_str()) {
            let name = manual[i].clone();
            picked.push(name);
            assert(texts(picked@) =~= before.push(name@));
        }
        i += 1;
    }
    assert(texts(manual@).take(manual.len() as int) =~= texts(manual@));
    picked
}

/// The groups of the subscription as they are served.
pub fn make_reachable(list: &Vec<ProxyGroup>) -> (out: Vec<ProxyGroup>)
    ensures
        groups(out@) == reachable_groups(groups(list@)),
{
    let mut out: Vec<ProxyGroup> = Vec::new();
    let mut i: usize = 0;
    while i < list.len()
        invariant
            i <= list.len(),
            out.len() == i,
            forall|j: int| 0 <= j < i ==> out@[j]@ == reachable(list@[j]@),
        decreases list.len() - i,
    {
        let mut ret = list[i].clone();
        if list[i].group_type().eq("select") && list[i].proxies().len() > SELECT_THRESHOLD {
            ret.insert(1, DEFAULT_FORCE_PROXY_OR_DIRECT_NAME.to_owned());
        }
        out.push(ret);
        i += 1;
    }
    assert(groups(out@) =~= reachable_groups(groups(list@)));
    out
}

/// Whether a locally declared group applies to a subscription.
pub fn applies_to(group: &ProxyGroup, sub_id: &str) -> (r: bool)
    ensures
        r == applies(group@, sub_id@),
{
    if holds_text(group.not_apply_to(), sub_id) {
        return false;
    }
    if group.apply_to().len() > 0 {
        return holds_text(group.apply_to(), sub_id);
    }
    true
}

/// The groups of the list that apply to the subscription.
pub fn applicable_groups(list: &Vec<ProxyGroup>, sub_id: &str) -> (out: Vec<ProxyGroup>)
    ensures
        groups(out@) == applicable(groups(list@), sub_id@),
{
    let mut out: Vec<ProxyGroup> = Vec::new();
    let mut i: usize = 0;
    assert(groups(list@).take(0) =~= Seq::empty());
    assert(groups(out@) =~= Seq::empty());
    while i < list.len()
        invariant
            i <= list.len(),
            groups(out@) == applicable(groups(list@).take(i as int), sub_id@),
        decreases list.len() - i,
    {
        let ghost before = groups(out@);
        let ghost next = groups(list@).take(i + 1);
        assert(next.drop_last() =~= groups(list@).take(i as int));
        assert(next.last() == list@[i as int]@);
        if applies_to(&list[i], sub_id) {
            let group = list[i].clone();
            out.push(group);
            assert(groups(out@) =~= before.push(group@));
        }
        i += 1;
    }
    assert(groups(list@).take(list.len() as int) =~= groups(list@));
    out
}

/// Puts `target` in place of each placeholder among the members, and counts
/// them.
fn substitute_members(members: &mut Vec<String>, target: &str) -> (count: usize)
    ensures
        texts(final(members)@) == substituted_members(texts(old(members)@), Some(target@)),
        count == placeholders(texts(old(members)@)),
{
    let ghost start = texts(members@);
    let mut count: usize = 0;
    let mut i: usize = 0;
    assert(start.take(0) =~= Seq::empty());
    while i < members.len()
        invariant
            i <= members.len(),
            members.len() == start.len(),
            count <= i,
            count == placeholders(start.take(i as int)),
            forall|j: int|
                0 <= j < i ==> texts(members@)[j] == substituted_members(start, Some(target@))[j],
            forall|j: int| i <= j < start.len() ==> texts(members@)[j] == start[j],
        decreases members.len() - i,
    {
        let ghost next = start.take(i + 1);
        assert(next.drop_last() =~= start.take(i as int));
        assert(next.last() == start[i as int]);
        let ghost before = members@;
        if members[i].as_str().eq(PLACEHOLDER) {
            members[i] = target.to_owned();
            count += 1;
        }
        proof {
            assert forall|j: int| 0 <= j < i + 1 implies texts(members@)[j] == substituted_members(
                start,
                Some(target@),
            )[j] by {
                if j < i {
                    assert(texts(members@)[j] == texts(before)[j]);
                } else {
                    assert(texts(before)[j] == start[j]);
                }
            }
            assert forall|j: int| i + 1 <= j < start.len() implies texts(members@)[j] == start[j] by {
                assert(texts(members@)[j] == texts(before)[j]);
            }
        }
        i += 1;
    }
    assert(start.take(start.len() as int) =~= start);
    assert(texts(members@) =~= substituted_members(start, Some(target@)));
    count
}

/// Puts `target` in place of each placeholder in the groups of the list, and
/// counts them; the count stops at the largest number that fits.
pub fn substitute_groups(list: &mut Vec<ProxyGroup>, target: &str) -> (count: usize)
    ensures
        groups(final(list)@) == substituted_groups(groups(old(list)@), Some(target@)),
        count as int == if placeholders_in(groups(old(list)@)) <= usize::MAX {
            placeholders_in(groups(old(list)@)) as int
        } else {
            usize::MAX as int
        },
{
    let ghost start = groups(list@);
    let mut count: usize = 0;
    let mut i: usize = 0;
    assert(start.take(0) =~= Seq::empty());
    while i < list.len()
        invariant
            i <= list.len(),
            list.len() == start.len(),
            count as int == if placeholders_in(start.take(i as int)) <= usize::MAX {
                placeholders_in(start.take(i as int)) as int
            } else {
                usize::MAX as int
            },
            forall|j: int|
                0 <= j < i ==> groups(list@)[j] == substituted_group(start[j], Some(target@)),
            forall|j: int| i <= j < start.len() ==> groups(list@)[j] == start[j],
        decreases list.len() - i,
    {
        let ghost next = start.take(i + 1);
        assert(next.drop_last() =~= start.take(i as int));
        assert(next.last() == start[i as int]);
        let ghost before = list@;
        assert(groups(before)[i as int] == start[i as int]);
        let found = substitute_members(list[i].proxies_mut(), target);
        proof {
            assert forall|j: int| 0 <= j < i + 1 implies groups(list@)[j] == substituted_group(
                start[j],
                Some(target@),
            ) by {
                if j < i {
                    assert(groups(list@)[j] == groups(before)[j]);
                }
            }
            assert forall|j: int| i + 1 <= j < start.len() implies groups(list@)[j] == start[j] by {
                assert(groups(list@)[j] == groups(before)[j]);
            }
        }
        if found > usize::MAX - count {
            count = usize::MAX;
        } else {
            count = count + found;
        }
        i += 1;
    }
    assert(start.take(start.len() as int) =~= start);
    assert(groups(list@) =~= substituted_groups(start, Some(target@)));
    count
}

/// Puts `target` in place of the placeholder in each record of the list.
pub fn substitute_records(list: &mut Vec<serde_yaml::Value>, target: &str)
    ensures
        final(list)@ == substituted_records(old(list)@, Some(target@)),
        passed_through(final(list)@, old(list)@, Some(target@)),
{
    let ghost start = list@;
    let mut i: usize = 0;
    while i < list.len()
        invariant
            i <= list.len(),
            list.len() == start.len(),
            forall|j: int|
                0 <= j < i ==> #[trigger] list@[j] == replaced_document(start[j], target@),
            forall|j: int|
                0 <= j < i && has_placeholder(#[trigger] start[j]) ==> dialer_written(
                    start[j],
                    list@[j],
                    target@,
                ),
            forall|j: int| i <= j < start.len() ==> list@[j] == start[j],
        decreases list.len() - i,
    {
        Proxy::replace_dialer_proxy(&mut list[i], target);
        i += 1;
    }
    assert(list@ =~= substituted_records(start, Some(target@)));
}

/// The records of the list that are handed on.
pub fn keep_records(list: &Vec<serde_yaml::Value>) -> (out: Vec<serde_yaml::Value>)
    ensures
        out@ == kept(list@),
{
    let mut out: Vec<serde_yaml::Value> = Vec::new();
    let mut i: usize = 0;
    assert(list@.take(0) =~= Seq::empty());
    while i < list.len()
        invariant
            i <= list.len(),
            out@ == kept(list@.take(i as int)),
        decreases list.len() - i,
    {
        let ghost next = list@.take(i + 1);
        assert(next.drop_last() =~= list@.take(i as int));
        assert(next.last() == list@[i as int]);
        if !Proxy::has_empty_password(&list[i]) {
            out.push(copy_of(&list[i]));
        }
        i += 1;
    }
    assert(list@.take(list.len() as int) =~= list@);
    out
}

/// What is handed on is no more than what there was.
pub proof fn lemma_kept_len(list: Seq<serde_yaml::Value>)
    ensures
        kept(list).len() <= list.len(),
    decreases list.len(),
{
    if list.len() > 0 {
        lemma_kept_len(list.drop_last());
    }
}

/// The count of replaced placeholders as it is reported: the count itself,
/// or the largest number that fits where it is larger.
pub open spec fn reported(count: nat) -> int {
    if count <= usize::MAX {
        count as int
    } else {
        usize::MAX as int
    }
}

/// What a successful merge hands back: the document that `merged` describes,
/// the chain target, and the two counts.
pub open spec fn reports(
    m: Merged,
    remote: RemoteConfigureView,
    local: ShareConfigView,
    sub_id: Seq<char>,
) -> bool {
    &&& merged(m.configure@, remote, local, sub_id)
    &&& opt_view(m.chain_target) == chain_target(local.manual_insert_proxies, remote.proxy_groups)
    &&& m.replaced_relay as int == reported(
        replaced_count(
            applicable(local.groups, sub_id),
            chain_target(local.manual_insert_proxies, remote.proxy_groups),
        ),
    )
    &&& m.dropped_records == remote.proxies.len() - kept(remote.proxies).len()
}

/// Merges a subscription document with the live state, for the subscription
/// `sub_id`. The merge fails exactly where a local record carries no name.
pub fn apply_change(sub_id: &str, remote: RemoteConfigure, local: &ShareConfig) -> (r: Result<
    Merged,
    MergeError,
>)
    ensures
        match r {
            Ok(m) => all_named(local@.proxies) && reports(m, remote@, local@, sub_id@),
            Err(MergeError::UnnamedLocalProxy(at)) => {
                &&& at < local@.proxies.len()
                &&& document_name(local@.proxies[at as int]) is None
                &&& all_named(local@.proxies.take(at as int))
            },
        },
{
    let mut remote = remote;
    let ghost given = remote@;
    let local_proxy_name = match collect_names(local.proxies().get_vec()) {
        Ok(names) => names,
        Err(at) => {
            return Err(MergeError::UnnamedLocalProxy(at));
        },
    };
    let ghost names = local_names(local@.proxies);

    let backup_or_direct = ProxyGroup::new_select(
        DEFAULT_FORCE_PROXY_OR_DIRECT_NAME.to_owned(),
        copy_texts(&local_proxy_name),
    );

    let mut picked = collect_matched(
        local.manual_insert_proxies(),
        remote.proxy_groups().get_vec(),
    );
    let ghost picked_names = matched(local@.manual_insert_proxies, given.proxy_groups);
    let last_proxies = if picked.len() > 0 {
        Some(picked[picked.len() - 1].clone())
    } else {
        None
    };
    let ghost target = chain_target(local@.manual_insert_proxies, given.proxy_groups);
    assert(opt_view(last_proxies) == target);

    let mut v: Vec<String> = Vec::new();
    v.push(DEFAULT_FORCE_PROXY_OR_DIRECT_NAME.to_owned());
    let mut local_proxy_name = local_proxy_name;
    v.append(&mut local_proxy_name);
    v.append(&mut picked);
    assert(texts(v@) =~= seq![DEFAULT_FORCE_PROXY_OR_DIRECT_NAME@] + names + picked_names);
    let proxy_or_direct = ProxyGroup::new_select(
        DEFAULT_PROXY_OR_DIRECT_NAME.to_owned(),
        v,
    ).insert_direct();

    let mut new_proxy_group: Vec<ProxyGroup> = Vec::new();
    new_proxy_group.push(backup_or_direct);
    new_proxy_group.push(proxy_or_direct);
    let mut real_proxy_group = make_reachable(remote.proxy_groups().get_vec());
    new_proxy_group.append(&mut real_proxy_group);
    let ghost base = seq![force_group(names), primary_group(names, picked_names)]
        + reachable_groups(given.proxy_groups);
    assert(groups(new_proxy_group@) =~= base);

    let mut additional_groups = applicable_groups(local.groups(), sub_id);
    let ghost chosen = applicable(local@.groups, sub_id@);
    let replaced_relay = match &last_proxies {
        Some(replace_target) => substitute_groups(&mut additional_groups, replace_target.as_str()),
        None => 0,
    };
    let ghost extra = substituted_groups(chosen, target);
    assert(groups(additional_groups@) =~= extra);

    let last = new_proxy_group.pop().unwrap();
    new_proxy_group.append(&mut additional_groups);
    new_proxy_group.push(last);
    assert(groups(new_proxy_group@) =~= spliced(base, extra));

    remote.mut_proxy_groups().set_vec(new_proxy_group);

    let mut new_proxy_pending = copy_documents(local.proxies().get_vec());
    match &last_proxies {
        Some(replace_target) => {
            substitute_records(&mut new_proxy_pending, replace_target.as_str());
        },
        None => {},
    }
    assert(new_proxy_pending@ =~= substituted_records(local@.proxies, target));
    let ghost head = new_proxy_pending@;
    assert(passed_through(head, local@.proxies, target));

    let mut handed_on = keep_records(remote.proxies().get_vec());
    proof {
        lemma_kept_len(given.proxies);
    }
    let dropped_records = remote.proxies_len() - handed_on.len();
    new_proxy_pending.append(&mut handed_on);
    assert(new_proxy_pending@ =~= merged_proxies(local@.proxies, given.proxies, target));
    assert(passed_through(new_proxy_pending@, local@.proxies, target)) by {
        assert forall|i: int|
            0 <= i < local@.proxies.len() && target is Some && has_placeholder(
                #[trigger] local@.proxies[i],
            ) implies dialer_written(local@.proxies[i], new_proxy_pending@[i], target->0) by {
            assert(new_proxy_pending@[i] == head[i]);
        }
    }

    remote.mut_proxies().set_vec(new_proxy_pending);

    remote.mut_rules().insert_head(local.rules().get_element());

    remote.normalize();

    Ok(Merged { configure: remote, chain_target: last_proxies, replaced_relay, dropped_records })
}

/// Where the group at `i` of a subscription with `count` groups stands among
/// the groups that are served, `extra` local groups having been put in.
pub open spec fn served_index(count: int, extra: int, i: int) -> int {
    if i < count - 1 {
        i + 2
    } else {
        i + 2 + extra
    }
}

/// Every group of the subscription is served, as `reachable` makes it, and
/// the groups keep their order. So a manual selector with more members than
/// the threshold is served with the force selector as its second member.
pub proof fn lemma_force_reachable(
    out: RemoteConfigureView,
    remote: RemoteConfigureView,
    local: ShareConfigView,
    sub_id: Seq<char>,
    i: int,
)
    requires
        merged(out, remote, local, sub_id),
        0 <= i < remote.proxy_groups.len(),
    ensures
        0 <= served_index(
            remote.proxy_groups.len() as int,
            applicable(local.groups, sub_id).len() as int,
            i,
        ) < out.proxy_groups.len(),
        out.proxy_groups[served_index(
            remote.proxy_groups.len() as int,
            applicable(local.groups, sub_id).len() as int,
            i,
        )] == reachable(remote.proxy_groups[i]),
        is_large_select(remote.proxy_groups[i]) ==> out.proxy_groups[served_index(
            remote.proxy_groups.len() as int,
            applicable(local.groups, sub_id).len() as int,
            i,
        )].proxies[1] == DEFAULT_FORCE_PROXY_OR_DIRECT_NAME@,
{
    let names = local_names(local.proxies);
    let picked = matched(local.manual_insert_proxies, remote.proxy_groups);
    let base = seq![force_group(names), primary_group(names, picked)] + reachable_groups(
        remote.proxy_groups,
    );
    assert(base[i + 2] == reachable(remote.proxy_groups[i]));
}

/// The first two groups that are served are the force selector and, unless
/// the subscription has no groups and local groups come first, the primary
/// selector; the primary selector is always served.
pub proof fn lemma_selectors_served(
    out: RemoteConfigureView,
    remote: RemoteConfigureView,
    local: ShareConfigView,
    sub_id: Seq<char>,
)
    requires
        merged(out, remote, local, sub_id),
    ensures
        out.proxy_groups.len() == remote.proxy_groups.len() + 2 + applicable(
            local.groups,
            sub_id,
        ).len(),
        out.proxy_groups[0] == force_group(local_names(local.proxies)),
        out.proxy_groups[if remote.proxy_groups.len() > 0 {
            1int
        } else {
            1 + applicable(local.groups, sub_id).len() as int
        }] == primary_group(
            local_names(local.proxies),
            matched(local.manual_insert_proxies, remote.proxy_groups),
        ),
{
}

/// The local groups that apply are served behind all but the last of the
/// other groups, in their order, each with the chain target in place of its
/// placeholders. With a chain target that is not itself the placeholder no
/// placeholder is left in them; without a chain target they are served as
/// they were declared.
pub proof fn lemma_local_groups_served(
    out: RemoteConfigureView,
    remote: RemoteConfigureView,
    local: ShareConfigView,
    sub_id: Seq<char>,
    k: int,
)
    requires
        merged(out, remote, local, sub_id),
        0 <= k < applicable(local.groups, sub_id).len(),
    ensures
        out.proxy_groups[remote.proxy_groups.len() + 1 + k] == substituted_group(
            applicable(local.groups, sub_id)[k],
            chain_target(local.manual_insert_proxies, remote.proxy_groups),
        ),
        chain_target(local.manual_insert_proxies, remote.proxy_groups) is None
            ==> out.proxy_groups[remote.proxy_groups.len() + 1 + k] == applicable(
            local.groups,
            sub_id,
        )[k],
        chain_target(local.manual_insert_proxies, remote.proxy_groups) matches Some(t) && t
            != PLACEHOLDER@ ==> !out.proxy_groups[remote.proxy_groups.len() + 1 + k].proxies.contains(
            PLACEHOLDER@,
        ),
{
    let target = chain_target(local.manual_insert_proxies, remote.proxy_groups);
    let group = applicable(local.groups, sub_id)[k];
    match target {
        Some(t) => {
            if t != PLACEHOLDER@ {
                lemma_placeholder_resolved(group.proxies, t);
            }
        },
        None => {},
    }
}

/// With a chain target that is not itself the placeholder, no placeholder is
/// left among the members.
pub proof fn lemma_placeholder_resolved(members: Seq<Seq<char>>, target: Seq<char>)
    requires
        target != PLACEHOLDER@,
    ensures
        !substituted_members(members, Some(target)).contains(PLACEHOLDER@),
        substituted_members(members, Some(target)).len() == members.len(),
{
}

/// A record is among those handed on exactly if it is one of the list and
/// its password is not empty.
pub proof fn lemma_kept_exact(list: Seq<serde_yaml::Value>, record: serde_yaml::Value)
    ensures
        kept(list).contains(record) <==> list.contains(record) && !is_template(record),
    decreases list.len(),
{
    if list.len() > 0 {
        let init = list.drop_last();
        lemma_kept_exact(init, record);
        if list.contains(record) {
            let j = choose|j: int| 0 <= j < list.len() && list[j] == record;
            if j < list.len() - 1 {
                assert(init[j] == record);
            }
        }
        if init.contains(record) {
            let j = choose|j: int| 0 <= j < init.len() && init[j] == record;
            assert(list[j] == record);
        }
        if !is_template(list.last()) {
            let rest = kept(init);
            assert(kept(list) == rest.push(list.last()));
            if rest.contains(record) {
                let j = choose|j: int| 0 <= j < rest.len() && rest[j] == record;
                assert(kept(list)[j] == record);
            }
            if kept(list).contains(record) {
                let j = choose|j: int| 0 <= j < kept(list).len() && kept(list)[j] == record;
                if j < rest.len() {
                    assert(rest[j] == record);
                }
            }
            if list.last() == record {
                assert(kept(list)[rest.len() as int] == record);
                assert(list[list.len() - 1] == record);
            }
        }
    }
}

/// Behind the local records, what is served is exactly the records of the
/// subscription whose password is not empty: each of them, in the
/// subscription's order, as it came. So a record of the subscription is
/// served exactly if its password is not empty.
pub proof fn lemma_remote_records_served(
    out: RemoteConfigureView,
    remote: RemoteConfigureView,
    local: ShareConfigView,
    sub_id: Seq<char>,
    record: serde_yaml::Value,
)
    requires
        merged(out, remote, local, sub_id),
    ensures
        out.proxies.len() == local.proxies.len() + kept(remote.proxies).len(),
        out.proxies.skip(local.proxies.len() as int) == kept(remote.proxies),
        out.proxies.skip(local.proxies.len() as int).contains(record) <==> remote.proxies.contains(
            record,
        ) && !is_template(record),
{
    lemma_kept_exact(remote.proxies, record);
    assert(out.proxies.skip(local.proxies.len() as int) =~= kept(remote.proxies));
}

/// The local records are served first, in their order, each with the chain
/// target in place of its placeholder. A record without the placeholder, and
/// every record where no chain target is resolved, is served as it was; a
/// record whose placeholder is replaced holds under every other key what it
/// held.
pub proof fn lemma_local_records_served(
    out: RemoteConfigureView,
    remote: RemoteConfigureView,
    local: ShareConfigView,
    sub_id: Seq<char>,
    i: int,
)
    requires
        merged(out, remote, local, sub_id),
        0 <= i < local.proxies.len(),
    ensures
        out.proxies[i] == substituted_record(
            local.proxies[i],
            chain_target(local.manual_insert_proxies, remote.proxy_groups),
        ),
        chain_target(local.manual_insert_proxies, remote.proxy_groups) is None || !has_placeholder(
            local.proxies[i],
        ) ==> out.proxies[i] == local.proxies[i],
        chain_target(local.manual_insert_proxies, remote.proxy_groups) is Some && has_placeholder(
            local.proxies[i],
        ) ==> dialer_written(
            local.proxies[i],
            out.proxies[i],
            chain_target(local.manual_insert_proxies, remote.proxy_groups)->0,
        ),
{
}

/// The rules that are served are the local rules, in their order, and then
/// the rules of the subscription, in theirs.
pub proof fn lemma_rules_prepended(
    out: RemoteConfigureView,
    remote: RemoteConfigureView,
    local: ShareConfigView,
    sub_id: Seq<char>,
)
    requires
        merged(out, remote, local, sub_id),
    ensures
        out.rules.len() == local.rules.len() + remote.rules.len(),
        out.rules.take(local.rules.len() as int) == local.rules,
        out.rules.skip(local.rules.len() as int) == remote.rules,
{
    assert(out.rules.take(local.rules.len() as int) =~= local.rules);
    assert(out.rules.skip(local.rules.len() as int) =~= remote.rules);
}

/// Two merges of the same inputs serve the same document.
pub proof fn lemma_merge_deterministic(
    first: RemoteConfigureView,
    second: RemoteConfigureView,
    remote: RemoteConfigureView,
    local: ShareConfigView,
    sub_id: Seq<char>,
)
    requires
        merged(first, remote, local, sub_id),
        merged(second, remote, local, sub_id),
    ensures
        first == second,
{
}

} // verus!
