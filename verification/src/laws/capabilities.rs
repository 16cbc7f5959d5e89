//! Laws of capabilities: who is shown a provider, who counts, what an advertisement says.
use vstd::prelude::*;

use crate::http::capability::{
    advertised, attribute_models, attributes_of, cap_advertise, cap_resolve, capvalue_to_json, demand, demand_reply,
    handle_id, listed, provider_count, provider_json_of, providers_of, provides, requirer_count,
    resolve_cap_providers, shard_emit, shard_emit_reply, shard_owner_reply, strings_of, value_of, visible, Advert,
    CapScan, CapTable, CapValue, CapValueModel, Requirement, ShardEmit, WatchEvent, WatchStep,
};
use crate::http::reply::Reply;
use crate::json::{member_from, Json, JsonModel};
use crate::keys::{cap_key_of, cap_parts, is_locality, lemma_cap_key_parts};
use crate::laws::governor::lemma_no_locality;
use crate::laws::tools::lemma_named;
use crate::laws::{increasing, lemma_pushed};
use crate::node_id::{nodes, valid_host, NodeId, NodeModel};
use crate::text::texts;

verus! {

/// Where the providers shown stand among the entries scanned.
proof fn lemma_shown_positions(scan: Seq<CapScan>, caller: Option<Seq<char>>, k: int) -> (idx: Seq<int>)
    requires
        0 <= k <= scan.len(),
    ensures
        increasing(idx),
        idx.len() == listed(scan, caller, k).len(),
        forall|j: int|
            0 <= j < idx.len() ==> 0 <= #[trigger] idx[j] < k && listed(scan, caller, k)[j] == provider_json_of(
                scan[idx[j]],
            ),
        forall|i: int|
            0 <= i < k ==> (#[trigger] idx.contains(i) <==> provides(scan[i]) && visible(scan[i].capability->0, caller)),
    decreases k,
{
    if k <= 0 {
        Seq::empty()
    } else {
        let front = lemma_shown_positions(scan, caller, k - 1);
        let kept = provides(scan[k - 1]) && visible(scan[k - 1].capability->0, caller);
        let idx = if kept {
            front.push(k - 1)
        } else {
            front
        };
        lemma_pushed(front, k - 1, kept, idx);
        idx
    }
}

proof fn lemma_provider_members(e: CapScan)
    ensures
        provider_json_of(e).at("node_id"@) == JsonModel::Str((cap_parts(e.key@)->0).0.text()),
        provider_json_of(e).at("ns"@) == JsonModel::Str((e.capability->0).namespace@),
        provider_json_of(e).at("name"@) == JsonModel::Str((e.capability->0).name@),
        provider_json_of(e).at("attributes"@) is Obj,
        provider_json_of(e).at("attributes"@)->Obj_0.len() == (e.capability->0).attributes@.len(),
        forall|a: int|
            0 <= a < (e.capability->0).attributes@.len() ==> (#[trigger] provider_json_of(e).at(
                "attributes"@,
            )->Obj_0[a]).0 == (e.capability->0).attributes@[a].0@,
{
    reveal_with_fuel(member_from, 5);
    reveal_strlit("node_id");
    reveal_strlit("ns");
    reveal_strlit("name");
    reveal_strlit("attributes");
    assert("node_id"@.len() == 7 && "ns"@.len() == 2 && "name"@.len() == 4 && "attributes"@.len() == 10);
}

/// A named caller is shown a matching provider exactly where the provider's caller list is empty or
/// some position of it holds the caller's id; a caller without an id is shown every matching one.
/// The providers shown stand in the order of the scan, each once, with its own node, namespace and
/// name.
pub proof fn lemma_callers_see_what_lists_them(scan: &Vec<CapScan>, caller: Option<&str>, r: Reply)
    requires
        call_ensures(cap_resolve, (scan, caller), r),
    ensures
        r.status == 200,
        r.body@.at("providers"@) is Arr,
        exists|idx: Seq<int>|
            {
                let shown = r.body@.at("providers"@)->Arr_0;
                &&& #[trigger] increasing(idx)
                &&& idx.len() == shown.len()
                &&& forall|j: int|
                    0 <= j < idx.len() ==> {
                        let e = scan@[#[trigger] idx[j]];
                        &&& 0 <= idx[j] < scan@.len()
                        &&& shown[j].at("node_id"@) == JsonModel::Str((cap_parts(e.key@)->0).0.text())
                        &&& shown[j].at("ns"@) == JsonModel::Str((e.capability->0).namespace@)
                        &&& shown[j].at("name"@) == JsonModel::Str((e.capability->0).name@)
                    }
                &&& forall|i: int|
                    0 <= i < scan@.len() ==> (#[trigger] idx.contains(i) <==> {
                        &&& scan@[i].matches
                        &&& cap_parts(scan@[i].key@) is Some
                        &&& !is_locality(scan@[i].key@)
                        &&& scan@[i].capability matches Some(c) && (caller matches Some(id)
                            ==> c.authorized_callers@.len() == 0 || exists|p: int|
                            0 <= p < c.authorized_callers@.len() && (#[trigger] c.authorized_callers@[p])@ == id@)
                    })
            },
{
    let who = crate::http::body::text_of(caller);
    let n = scan@.len() as int;
    let idx = lemma_shown_positions(scan@, who, n);
    let body = r.body@;
    assert(body == r@.body);
    reveal_with_fuel(member_from, 2);
    assert(body.at("providers"@) == JsonModel::Arr(listed(scan@, who, n)));
    let shown = body.at("providers"@)->Arr_0;
    assert forall|j: int| 0 <= j < idx.len() implies {
        let e = scan@[#[trigger] idx[j]];
        &&& 0 <= idx[j] < scan@.len()
        &&& shown[j].at("node_id"@) == JsonModel::Str((cap_parts(e.key@)->0).0.text())
        &&& shown[j].at("ns"@) == JsonModel::Str((e.capability->0).namespace@)
        &&& shown[j].at("name"@) == JsonModel::Str((e.capability->0).name@)
    } by {
        lemma_provider_members(scan@[idx[j]]);
    }
    assert forall|i: int| 0 <= i < scan@.len() implies (#[trigger] idx.contains(i) <==> {
        &&& scan@[i].matches
        &&& cap_parts(scan@[i].key@) is Some
        &&& !is_locality(scan@[i].key@)
        &&& scan@[i].capability matches Some(c) && (caller matches Some(id) ==> c.authorized_callers@.len() == 0
            || exists|p: int| 0 <= p < c.authorized_callers@.len() && (#[trigger] c.authorized_callers@[p])@ == id@)
    }) by {
        if scan@[i].capability is Some && caller is Some {
            lemma_named((scan@[i].capability->0).authorized_callers@, (caller->0)@);
        }
    }
    assert(increasing(idx));
}

/// Adding a caller to a provider's list, or looking without an id, never hides the provider from
/// whom it was shown to; and whoever is not on a list that is not empty is not shown it.
pub proof fn lemma_stranger_is_not_shown(scan: &Vec<CapScan>, caller: &str, r: Reply)
    requires
        call_ensures(cap_resolve, (scan, Some(caller)), r),
        forall|i: int|
            #![trigger scan@[i]]
            0 <= i < scan@.len() ==> (scan@[i].capability matches Some(c) ==> c.authorized_callers@.len() > 0
                && forall|p: int|
                0 <= p < c.authorized_callers@.len() ==> (#[trigger] c.authorized_callers@[p])@ != caller@),
    ensures
        r.body@.at("providers"@) == JsonModel::Arr(Seq::empty()),
{
    lemma_callers_see_what_lists_them(scan, Some(caller), r);
    let shown = r.body@.at("providers"@)->Arr_0;
    let idx = choose|idx: Seq<int>|
        {
            &&& #[trigger] increasing(idx)
            &&& idx.len() == shown.len()
            &&& forall|j: int|
                0 <= j < idx.len() ==> {
                    let e = scan@[#[trigger] idx[j]];
                    &&& 0 <= idx[j] < scan@.len()
                    &&& shown[j].at("node_id"@) == JsonModel::Str((cap_parts(e.key@)->0).0.text())
                    &&& shown[j].at("ns"@) == JsonModel::Str((e.capability->0).namespace@)
                    &&& shown[j].at("name"@) == JsonModel::Str((e.capability->0).name@)
                }
            &&& forall|i: int|
                0 <= i < scan@.len() ==> (#[trigger] idx.contains(i) <==> {
                    &&& scan@[i].matches
                    &&& cap_parts(scan@[i].key@) is Some
                    &&& !is_locality(scan@[i].key@)
                    &&& scan@[i].capability matches Some(c) && (Some(caller) matches Some(id)
                        ==> c.authorized_callers@.len() == 0 || exists|p: int|
                        0 <= p < c.authorized_callers@.len() && (#[trigger] c.authorized_callers@[p])@ == id@)
                })
        };
    if idx.len() > 0 {
        assert(idx.contains(idx[0]));
        assert(scan@[idx[0]].capability is Some);
    }
    assert(shown =~= Seq::empty());
}

/// The providers resolved are the nodes of the matching entries, in their order.
pub proof fn lemma_providers_are_the_matching_nodes(scan: &Vec<CapScan>, r: Vec<NodeId>)
    requires
        call_ensures(resolve_cap_providers, (scan,), r),
    ensures
        exists|idx: Seq<int>|
            {
                &&& #[trigger] increasing(idx)
                &&& idx.len() == r@.len()
                &&& forall|j: int|
                    0 <= j < idx.len() ==> 0 <= #[trigger] idx[j] < scan@.len() && cap_parts(scan@[idx[j]].key@) is Some
                        && (cap_parts(scan@[idx[j]].key@)->0).0 == r@[j]@
                &&& forall|i: int|
                    0 <= i < scan@.len() ==> (#[trigger] idx.contains(i) <==> scan@[i].matches && scan@[i].capability
                        is Some && cap_parts(scan@[i].key@) is Some && !is_locality(scan@[i].key@))
            },
        forall|i: int, n: NodeModel, ns: Seq<char>, name: Seq<char>|
            #![trigger scan@[i], cap_key_of(n, ns, name)]
            0 <= i < scan@.len() && valid_host(n.host) && !ns.contains('/') && ns != "locality"@ && scan@[i].matches
                && scan@[i].capability is Some && scan@[i].key@ == cap_key_of(n, ns, name) ==> nodes(r@).contains(n),
{
    let k = scan@.len() as int;
    let idx = lemma_provider_positions(scan@, k);
    assert(nodes(r@) == providers_of(scan@, k));
    assert forall|j: int| 0 <= j < idx.len() implies 0 <= #[trigger] idx[j] < scan@.len() && cap_parts(
        scan@[idx[j]].key@,
    ) is Some && (cap_parts(scan@[idx[j]].key@)->0).0 == r@[j]@ by {
        assert(nodes(r@)[j] == r@[j]@);
    }
    assert(increasing(idx));
    assert forall|i: int, n: NodeModel, ns: Seq<char>, name: Seq<char>|
        #![trigger scan@[i], cap_key_of(n, ns, name)]
        0 <= i < scan@.len() && valid_host(n.host) && !ns.contains('/') && ns != "locality"@ && scan@[i].matches
            && scan@[i].capability is Some && scan@[i].key@ == cap_key_of(n, ns, name) implies nodes(r@).contains(n) by {
        lemma_cap_key_parts(n, ns, name);
        lemma_no_locality(n, ns, name);
        assert(idx.contains(i));
        let j = choose|j: int| 0 <= j < idx.len() && idx[j] == i;
        assert(nodes(r@)[j] == n);
    }
}

proof fn lemma_provider_positions(scan: Seq<CapScan>, k: int) -> (idx: Seq<int>)
    requires
        0 <= k <= scan.len(),
    ensures
        increasing(idx),
        idx.len() == providers_of(scan, k).len(),
        forall|j: int|
            0 <= j < idx.len() ==> 0 <= #[trigger] idx[j] < k && cap_parts(scan[idx[j]].key@) is Some && (cap_parts(
                scan[idx[j]].key@,
            )->0).0 == providers_of(scan, k)[j],
        forall|i: int|
            0 <= i < k ==> (#[trigger] idx.contains(i) <==> scan[i].matches && scan[i].capability is Some && cap_parts(
                scan[i].key@,
            ) is Some && !is_locality(scan[i].key@)),
    decreases k,
{
    if k <= 0 {
        Seq::empty()
    } else {
        let front = lemma_provider_positions(scan, k - 1);
        let kept = provides(scan[k - 1]);
        let idx = if kept {
            front.push(k - 1)
        } else {
            front
        };
        lemma_pushed(front, k - 1, kept, idx);
        idx
    }
}

/// Demand counts the matching providers and the requirements of this very namespace and name.
pub proof fn lemma_demand_counts(
    scan: &Vec<CapScan>,
    reqs: &Vec<Option<Requirement>>,
    ns: &str,
    name: &str,
    r: (usize, usize),
)
    requires
        call_ensures(demand, (scan, reqs, ns, name), r),
    ensures
        exists|idx: Seq<int>|
            {
                &&& #[trigger] increasing(idx)
                &&& idx.len() == r.0
                &&& forall|j: int| 0 <= j < idx.len() ==> 0 <= #[trigger] idx[j] < scan@.len()
                &&& forall|i: int|
                    0 <= i < scan@.len() ==> (#[trigger] idx.contains(i) <==> scan@[i].matches && scan@[i].capability
                        is Some && !is_locality(scan@[i].key@))
            },
        exists|idx: Seq<int>|
            {
                &&& #[trigger] increasing(idx)
                &&& idx.len() == r.1
                &&& forall|j: int| 0 <= j < idx.len() ==> 0 <= #[trigger] idx[j] < reqs@.len()
                &&& forall|i: int|
                    0 <= i < reqs@.len() ==> (#[trigger] idx.contains(i) <==> (reqs@[i] matches Some(q)
                        && q.namespace@ == ns@ && q.name@ == name@))
            },
{
    let a = lemma_counted_providers(scan@, scan@.len() as int);
    let b = lemma_counted_requirers(reqs@, ns@, name@, reqs@.len() as int);
    assert(increasing(a) && increasing(b));
}

proof fn lemma_counted_providers(scan: Seq<CapScan>, k: int) -> (idx: Seq<int>)
    requires
        0 <= k <= scan.len(),
    ensures
        increasing(idx),
        idx.len() == provider_count(scan, k),
        forall|j: int| 0 <= j < idx.len() ==> 0 <= #[trigger] idx[j] < k,
        forall|i: int|
            0 <= i < k ==> (#[trigger] idx.contains(i) <==> scan[i].matches && scan[i].capability is Some
                && !is_locality(scan[i].key@)),
    decreases k,
{
    if k <= 0 {
        Seq::empty()
    } else {
        let front = lemma_counted_providers(scan, k - 1);
        let kept = scan[k - 1].matches && scan[k - 1].capability is Some && !is_locality(scan[k - 1].key@);
        let idx = if kept {
            front.push(k - 1)
        } else {
            front
        };
        lemma_pushed(front, k - 1, kept, idx);
        idx
    }
}

proof fn lemma_counted_requirers(reqs: Seq<Option<Requirement>>, ns: Seq<char>, name: Seq<char>, k: int) -> (idx: Seq<
    int,
>)
    requires
        0 <= k <= reqs.len(),
    ensures
        increasing(idx),
        idx.len() == requirer_count(reqs, ns, name, k),
        forall|j: int| 0 <= j < idx.len() ==> 0 <= #[trigger] idx[j] < k,
        forall|i: int|
            0 <= i < k ==> (#[trigger] idx.contains(i) <==> (reqs[i] matches Some(q) && q.namespace@ == ns && q.name@
                == name)),
    decreases k,
{
    if k <= 0 {
        Seq::empty()
    } else {
        let front = lemma_counted_requirers(reqs, ns, name, k - 1);
        let kept = reqs[k - 1] matches Some(q) && q.namespace@ == ns && q.name@ == name;
        let idx = if kept {
            front.push(k - 1)
        } else {
            front
        };
        lemma_pushed(front, k - 1, kept, idx);
        idx
    }
}

/// The answer on demand carries the counts and the pressure it was given.
pub proof fn lemma_demand_is_told(ns: &str, name: &str, providers: usize, requirers: usize, pressure: u64, r: Reply)
    requires
        call_ensures(demand_reply, (ns, name, providers, requirers, pressure), r),
    ensures
        r.status == 200,
        r.body@.at("ns"@) == JsonModel::Str(ns@),
        r.body@.at("name"@) == JsonModel::Str(name@),
        r.body@.at("providers"@) == JsonModel::Int(providers as int),
        r.body@.at("requirers"@) == JsonModel::Int(requirers as int),
        r.body@.at("demand_pressure"@) == JsonModel::Real(pressure),
{
    assert(r.body@ == r@.body && r.status == r@.status);
    reveal_with_fuel(member_from, 6);
    reveal_strlit("ns");
    reveal_strlit("name");
    reveal_strlit("providers");
    reveal_strlit("requirers");
    reveal_strlit("demand_pressure");
    assert("ns"@.len() == 2 && "name"@.len() == 4 && "providers"@.len() == 9 && "requirers"@.len() == 9
        && "demand_pressure"@.len() == 15);
    assert("providers"@[0] != "requirers"@[0]);
}

/// An advertisement says what the request says: its namespace and name, the strings of its caller
/// list in their order, and times of at least a second; a missing namespace or name is refused.
pub proof fn lemma_advertisement_is_the_request(body: &Json, me: &NodeId, r: Result<Advert, Reply>)
    requires
        call_ensures(cap_advertise, (body, me), r),
    ensures
        r is Ok <==> body@.at("ns"@) is Str && body@.at("name"@) is Str,
        r matches Err(e) ==> e.status == 400,
        r matches Ok(a) ==> {
            &&& JsonModel::Str(a.capability.namespace@) == body@.at("ns"@)
            &&& JsonModel::Str(a.capability.name@) == body@.at("name"@)
            &&& a.key@ == "cap/"@ + me@.text() + "/"@ + a.capability.namespace@ + "/"@ + a.capability.name@
            &&& a.interval_secs >= 1
            &&& body@.at("interval_secs"@) matches JsonModel::Int(s) ==> (s >= 1 ==> a.interval_secs == s)
            &&& body@.at("interval_secs"@) is Null ==> a.interval_secs == 30
            &&& a.lease_secs matches Some(l) ==> l >= 1 && body@.at("lease_secs"@) is Int
            &&& body@.at("lease_secs"@) matches JsonModel::Int(s) ==> (s >= 1 ==> a.lease_secs is Some
                && a.lease_secs->0 == s)
            &&& body@.at("lease_secs"@) is Null ==> a.lease_secs is None
            &&& !(body@.at("authorized_callers"@) is Arr) ==> a.capability.authorized_callers@.len() == 0
            &&& body@.at("authorized_callers"@) matches JsonModel::Arr(v) ==> forall|i: int|
                #![trigger v[i]]
                0 <= i < v.len() && v[i] is Str ==> texts(a.capability.authorized_callers@).contains(v[i]->Str_0)
            &&& body@.at("authorized_callers"@) matches JsonModel::Arr(v) ==> forall|p: int|
                0 <= p < a.capability.authorized_callers@.len() ==> v.contains(
                    JsonModel::Str((#[trigger] a.capability.authorized_callers@[p])@),
                )
        },
{
    if r is Err {
        assert(r->Err_0.status == r->Err_0@.status);
    } else {
        let a = r->Ok_0;
        reveal_strlit("/");
        assert(a.key@ =~= "cap/"@ + me@.text() + "/"@ + a.capability.namespace@ + "/"@ + a.capability.name@);
        let j = body@.at("authorized_callers"@);
        if j is Arr {
            let v = j->Arr_0;
            lemma_strings(v, v.len() as int);
            let out = strings_of(v, v.len() as int);
            assert(texts(a.capability.authorized_callers@) == out);
            assert forall|p: int| 0 <= p < a.capability.authorized_callers@.len() implies v.contains(
                JsonModel::Str((#[trigger] a.capability.authorized_callers@[p])@),
            ) by {
                assert(out[p] == a.capability.authorized_callers@[p]@);
                assert(out.contains(out[p]));
            }
        } else {
            assert(texts(a.capability.authorized_callers@).len() == 0);
        }
    }
}

/// The strings of a list of values are those of its elements that are strings.
proof fn lemma_strings(v: Seq<JsonModel>, k: int)
    requires
        0 <= k <= v.len(),
    ensures
        forall|i: int|
            #![trigger v[i]]
            0 <= i < k && v[i] is Str ==> strings_of(v, k).contains(v[i]->Str_0),
        forall|s: Seq<char>| #[trigger] strings_of(v, k).contains(s) ==> v.contains(JsonModel::Str(s)),
    decreases k,
{
    if k > 0 {
        lemma_strings(v, k - 1);
        let front = strings_of(v, k - 1);
        let now = strings_of(v, k);
        assert forall|i: int| #![trigger v[i]] 0 <= i < k && v[i] is Str implies now.contains(v[i]->Str_0) by {
            let s = v[i]->Str_0;
            if i < k - 1 {
                assert(front.contains(s));
                let j = choose|j: int| 0 <= j < front.len() && front[j] == s;
                assert(now[j] == s);
            } else {
                assert(now[front.len() as int] == s);
            }
        }
        assert forall|s: Seq<char>| #[trigger] now.contains(s) implies v.contains(JsonModel::Str(s)) by {
            let j = choose|j: int| 0 <= j < now.len() && now[j] == s;
            if j < front.len() {
                assert(front[j] == s);
                assert(front.contains(s));
            } else {
                assert(v[k - 1] == JsonModel::Str(s));
            }
        }
    }
}

/// The attributes advertised are those of the request that can be one, under their own names, in
/// their order: a string stays a string, a truth value a truth value, a whole number a number.
pub proof fn lemma_attributes_are_the_requests(body: &Json, me: &NodeId, r: Result<Advert, Reply>)
    requires
        call_ensures(cap_advertise, (body, me), r),
        r is Ok,
    ensures
        !(body@.at("attributes"@) is Obj) ==> r->Ok_0.capability.attributes@.len() == 0,
        body@.at("attributes"@) matches JsonModel::Obj(f) ==> exists|idx: Seq<int>|
            {
                let got = r->Ok_0.capability.attributes@;
                &&& #[trigger] increasing(idx)
                &&& idx.len() == got.len()
                &&& forall|j: int|
                    0 <= j < idx.len() ==> {
                        let v = f[#[trigger] idx[j]].1;
                        &&& 0 <= idx[j] < f.len()
                        &&& got[j].0@ == f[idx[j]].0
                        &&& v matches JsonModel::Str(s) ==> got[j].1@ == CapValueModel::Text(s)
                        &&& v matches JsonModel::Bool(b) ==> got[j].1@ == CapValueModel::Bool(b)
                        &&& v matches JsonModel::Real(x) ==> got[j].1@ == CapValueModel::Float(x)
                        &&& v matches JsonModel::Int(n) ==> (i64::MIN <= n <= i64::MAX ==> got[j].1@
                            == CapValueModel::Integer(n as i64))
                    }
                &&& forall|i: int|
                    0 <= i < f.len() ==> (#[trigger] idx.contains(i) <==> f[i].1 is Str || f[i].1 is Bool || f[i].1
                        is Real || f[i].1 is Int)
            },
{
    let got = r->Ok_0.capability.attributes@;
    assert(attribute_models(got).len() == got.len());
    if body@.at("attributes"@) is Obj {
        let f = body@.at("attributes"@)->Obj_0;
        let idx = lemma_attribute_positions(f, f.len() as int);
        assert forall|j: int| 0 <= j < idx.len() implies {
            let v = f[#[trigger] idx[j]].1;
            &&& 0 <= idx[j] < f.len()
            &&& got[j].0@ == f[idx[j]].0
            &&& v matches JsonModel::Str(s) ==> got[j].1@ == CapValueModel::Text(s)
            &&& v matches JsonModel::Bool(b) ==> got[j].1@ == CapValueModel::Bool(b)
            &&& v matches JsonModel::Real(x) ==> got[j].1@ == CapValueModel::Float(x)
            &&& v matches JsonModel::Int(n) ==> (i64::MIN <= n <= i64::MAX ==> got[j].1@ == CapValueModel::Integer(
                n as i64,
            ))
        } by {
            assert(attribute_models(got)[j] == (got[j].0@, got[j].1@));
        }
        assert(increasing(idx));
    }
}

proof fn lemma_attribute_positions(f: Seq<(Seq<char>, JsonModel)>, k: int) -> (idx: Seq<int>)
    requires
        0 <= k <= f.len(),
    ensures
        increasing(idx),
        idx.len() == attributes_of(f, k).len(),
        forall|j: int|
            0 <= j < idx.len() ==> 0 <= #[trigger] idx[j] < k && attributes_of(f, k)[j].0 == f[idx[j]].0 && value_of(
                f[idx[j]].1,
            ) == Some(attributes_of(f, k)[j].1),
        forall|i: int|
            0 <= i < k ==> (#[trigger] idx.contains(i) <==> f[i].1 is Str || f[i].1 is Bool || f[i].1 is Real
                || f[i].1 is Int),
    decreases k,
{
    if k <= 0 {
        Seq::empty()
    } else {
        let front = lemma_attribute_positions(f, k - 1);
        let kept = value_of(f[k - 1].1) is Some;
        let idx = if kept {
            front.push(k - 1)
        } else {
            front
        };
        lemma_pushed(front, k - 1, kept, idx);
        idx
    }
}

/// An attribute goes out as it came in.
pub proof fn lemma_attributes_go_out_as_they_came(v: &CapValue, r: Json)
    requires
        call_ensures(capvalue_to_json, (v,), r),
    ensures
        v@ matches CapValueModel::Text(s) ==> r@ == JsonModel::Str(s),
        v@ matches CapValueModel::Integer(n) ==> r@ == JsonModel::Int(n as int),
        v@ matches CapValueModel::Float(b) ==> r@ == JsonModel::Real(b),
        v@ matches CapValueModel::Bool(b) ==> r@ == JsonModel::Bool(b),
{
}

/// A handle that lapsed is gone, one that was beaten for stays, and a shutdown takes nothing.
pub proof fn lemma_only_a_lapse_retracts(t: &mut CapTable, id: &str, event: WatchEvent, r: WatchStep)
    requires
        old(t).wf(),
        call_ensures(CapTable::watch, (t, id, event), r),
    ensures
        event != WatchEvent::Lapsed ==> *final(t) == *old(t),
        event == WatchEvent::Beat <==> r == WatchStep::Restart,
        event == WatchEvent::Lapsed ==> forall|i: int|
            0 <= i < final(t).handles@.len() ==> (#[trigger] final(t).handles@[i]).id@ != id@,
        r == WatchStep::Retracted <==> event == WatchEvent::Lapsed && exists|i: int|
            0 <= i < old(t).handles@.len() && (#[trigger] old(t).handles@[i]).id@ == id@,
{
    if event == WatchEvent::Lapsed {
        assert forall|i: int| 0 <= i < final(t).handles@.len() implies (#[trigger] final(t).handles@[i]).id@ != id@ by {
            assert(!final(t).has(id@));
        }
    }
}

/// A heartbeat is taken for a handle with a lease and for no other: a handle without one and a
/// handle that is not there are told apart.
pub proof fn lemma_heartbeat_needs_a_lease(t: &CapTable, id: &str, r: (Reply, bool), i: int)
    requires
        t.wf(),
        call_ensures(CapTable::heartbeat, (t, id), r),
        0 <= i < t.handles@.len(),
        t.handles@[i].id@ == id@,
    ensures
        t.handles@[i].lease_secs is Some ==> r.0.status == 200 && r.1,
        t.handles@[i].lease_secs is None ==> r.0.status == 409 && !r.1,
{
    assert(r.0.status == r.0@.status);
    assert(t.has(id@));
    if t.handles@[i].lease_secs is None {
        assert(t.holds(id@, None));
    } else if t.holds(id@, None) {
        let k = choose|k: int|
            0 <= k < t.handles@.len() && (#[trigger] t.handles@[k]).id@ == id@ && t.handles@[k].lease_secs
                == None::<u64>;
        if k < i {
            assert(t.handles@[k].id@ != t.handles@[i].id@);
        } else if i < k {
            assert(t.handles@[i].id@ != t.handles@[k].id@);
        }
    }
}

/// What is dropped is gone and was there; what was not there is told so; every other handle stays
/// with its lease.
pub proof fn lemma_drop_takes_one_handle(t: &mut CapTable, id: &str, r: Reply)
    requires
        old(t).wf(),
        call_ensures(CapTable::drop_handle, (t, id), r),
    ensures
        r.status == 200 <==> exists|i: int| 0 <= i < old(t).handles@.len() && (#[trigger] old(t).handles@[i]).id@ == id@,
        r.status == 200 || r.status == 404,
        forall|i: int| 0 <= i < final(t).handles@.len() ==> (#[trigger] final(t).handles@[i]).id@ != id@,
        forall|i: int|
            #![trigger old(t).handles@[i]]
            0 <= i < old(t).handles@.len() && old(t).handles@[i].id@ != id@ ==> exists|j: int|
                0 <= j < final(t).handles@.len() && (#[trigger] final(t).handles@[j]).id@ == old(t).handles@[i].id@
                    && final(t).handles@[j].lease_secs == old(t).handles@[i].lease_secs,
{
    assert(r.status == r@.status);
    assert forall|i: int| 0 <= i < final(t).handles@.len() implies (#[trigger] final(t).handles@[i]).id@ != id@ by {
        assert(!final(t).has(id@));
    }
    assert forall|i: int|
        #![trigger old(t).handles@[i]]
        0 <= i < old(t).handles@.len() && old(t).handles@[i].id@ != id@ implies exists|j: int|
        0 <= j < final(t).handles@.len() && (#[trigger] final(t).handles@[j]).id@ == old(t).handles@[i].id@ && final(t).handles@[j].lease_secs == old(t).handles@[i].lease_secs by {
        assert(old(t).holds(old(t).handles@[i].id@, old(t).handles@[i].lease_secs));
        assert(final(t).holds(old(t).handles@[i].id@, old(t).handles@[i].lease_secs));
    }
}

/// A handle inserted is there with the lease it was given, and once.
pub proof fn lemma_inserted_handle_is_there(t: &mut CapTable, id: &str, lease: Option<u64>, i: int)
    requires
        old(t).wf(),
        call_ensures(CapTable::insert, (t, id, lease), ()),
        0 <= i < final(t).handles@.len(),
        final(t).handles@[i].id@ == id@,
    ensures
        final(t).handles@[i].lease_secs == lease,
{
    assert(final(t).holds(id@, lease));
    let k = choose|k: int|
        0 <= k < final(t).handles@.len() && (#[trigger] final(t).handles@[k]).id@ == id@ && final(t).handles@[k].lease_secs == lease;
    if k < i {
        assert(final(t).handles@[k].id@ != final(t).handles@[i].id@);
    } else if i < k {
        assert(final(t).handles@[i].id@ != final(t).handles@[k].id@);
    }
}

/// A shard's owner is named, and where there is none the caller is told so.
pub proof fn lemma_owner_is_named(owner: Option<&NodeId>, r: Reply, s: Reply)
    requires
        call_ensures(shard_owner_reply, (owner,), r),
        call_ensures(shard_emit_reply, (owner,), s),
    ensures
        owner matches Some(n) ==> r.status == 200 && r.body@.at("owner"@) == JsonModel::Str(n@.text()) && s.status == 200
            && s.body@.at("owner"@) == JsonModel::Str(n@.text()) && s.body@.at("ok"@) == JsonModel::Bool(true),
        owner is None ==> r.status == 404 && s.status == 404 && s.body@.at("ok"@) == JsonModel::Bool(false),
{
    assert(r.status == r@.status && r.body@ == r@.body);
    assert(s.status == s@.status && s.body@ == s@.body);
    reveal_with_fuel(member_from, 3);
    reveal_strlit("ok");
    reveal_strlit("owner");
    assert("ok"@.len() == 2 && "owner"@.len() == 5);
}

/// What is emitted to a shard is what the request says, and a request that leaves one of the four
/// names out, or whose payload is not base64, emits nothing.
pub proof fn lemma_emitted_is_the_request(body: &Json, r: Result<ShardEmit, Reply>)
    requires
        call_ensures(shard_emit, (body,), r),
    ensures
        r matches Ok(s) ==> {
            &&& body@.at("kind"@) == JsonModel::Str(s.kind@)
            &&& body@.at("ns"@) == JsonModel::Str(s.ns@)
            &&& body@.at("name"@) == JsonModel::Str(s.name@)
            &&& body@.at("shard_key"@) == JsonModel::Str(s.shard_key@)
            &&& body@.at("payload_b64"@) matches JsonModel::Str(t) ==> crate::b64::base64_bytes(t) == Some(s.payload@)
            &&& !(body@.at("payload_b64"@) is Str) ==> s.payload@.len() == 0
        },
        r is Ok <==> body@.at("kind"@) is Str && body@.at("ns"@) is Str && body@.at("name"@) is Str && body@.at(
            "shard_key"@,
        ) is Str && (body@.at("payload_b64"@) matches JsonModel::Str(t) ==> crate::b64::base64_bytes(t) is Some),
        r matches Err(e) ==> e.status == 400,
{
    if r is Err {
        assert(r->Err_0.status == r->Err_0@.status);
    }
}

/// A provider is shown with its own attributes, each under its name and as what it is.
pub proof fn lemma_providers_are_shown_with_their_attributes(scan: &Vec<CapScan>, r: Reply, j: int)
    requires
        call_ensures(cap_resolve, (scan, None::<&str>), r),
        0 <= j < r.body@.at("providers"@)->Arr_0.len(),
    ensures
        exists|i: int|
            #![trigger scan@[i]]
            0 <= i < scan@.len() && scan@[i].capability is Some && {
                let c = scan@[i].capability->0;
                let shown = r.body@.at("providers"@)->Arr_0[j].at("attributes"@);
                &&& shown is Obj
                &&& shown->Obj_0.len() == c.attributes@.len()
                &&& forall|a: int|
                    0 <= a < c.attributes@.len() ==> (#[trigger] shown->Obj_0[a]).0 == c.attributes@[a].0@ && (
                    c.attributes@[a].1@ matches CapValueModel::Text(s) ==> shown->Obj_0[a].1 == JsonModel::Str(s)) && (
                    c.attributes@[a].1@ matches CapValueModel::Integer(n) ==> shown->Obj_0[a].1 == JsonModel::Int(
                        n as int,
                    )) && (c.attributes@[a].1@ matches CapValueModel::Bool(b) ==> shown->Obj_0[a].1 == JsonModel::Bool(b))
                        && (c.attributes@[a].1@ matches CapValueModel::Float(b) ==> shown->Obj_0[a].1
                        == JsonModel::Real(b))
            },
{
    let n = scan@.len() as int;
    let idx = lemma_shown_positions(scan@, None, n);
    assert(r.body@ == r@.body);
    reveal_with_fuel(member_from, 2);
    assert(r.body@.at("providers"@) == JsonModel::Arr(listed(scan@, None, n)));
    let i = idx[j];
    assert(idx.contains(i));
    lemma_provider_members(scan@[i]);
    let c = scan@[i].capability->0;
    let shown = provider_json_of(scan@[i]).at("attributes"@);
    assert(shown == crate::http::capability::attributes_json_of(attribute_models(c.attributes@))) by {
        reveal_with_fuel(member_from, 5);
        reveal_strlit("node_id");
        reveal_strlit("ns");
        reveal_strlit("name");
        reveal_strlit("attributes");
        assert("node_id"@.len() == 7 && "ns"@.len() == 2 && "name"@.len() == 4 && "attributes"@.len() == 10);
    }
    assert(scan@[i].capability is Some);
}

/// A whole number too large to be kept as one is kept as the nearest number of the floating format:
/// within half a step of it, and at the even one where two are as near.
pub proof fn lemma_large_numbers_are_rounded(body: &Json, me: &NodeId, r: Result<Advert, Reply>, j: int)
    requires
        call_ensures(cap_advertise, (body, me), r),
        r is Ok,
        body@.at("attributes"@) is Obj,
        0 <= j < body@.at("attributes"@)->Obj_0.len(),
        body@.at("attributes"@)->Obj_0[j].1 is Int,
        i64::MAX < body@.at("attributes"@)->Obj_0[j].1->Int_0 <= u64::MAX,
    ensures
        exists|a: int|
            #![trigger r->Ok_0.capability.attributes@[a]]
            0 <= a < r->Ok_0.capability.attributes@.len() && r->Ok_0.capability.attributes@[a].0@ == body@.at(
                "attributes"@,
            )->Obj_0[j].0 && (r->Ok_0.capability.attributes@[a].1@ matches CapValueModel::Float(bits) && {
                let n = body@.at("attributes"@)->Obj_0[j].1->Int_0;
                let mantissa = bits - 0x43E0_0000_0000_0000 + 0x10_0000_0000_0000;
                &&& -1024 <= 2048 * mantissa - n <= 1024
                &&& 2048 * mantissa - n == 1024 || n - 2048 * mantissa == 1024 ==> mantissa % 2 == 0
            }),
{
    let f = body@.at("attributes"@)->Obj_0;
    let got = r->Ok_0.capability.attributes@;
    let idx = lemma_attribute_positions(f, f.len() as int);
    assert(idx.contains(j));
    let a = choose|a: int| 0 <= a < idx.len() && idx[a] == j;
    assert(attribute_models(got)[a] == (got[a].0@, got[a].1@));
    let n = f[j].1->Int_0;
    let q = n / 2048;
    let rest = n % 2048;
    assert(n == 2048 * q + rest);
    assert(0x10_0000_0000_0000 <= q <= 0x1F_FFFF_FFFF_FFFF);
    let m = crate::http::capability::rounded(n);
    assert(q <= m <= q + 1);
    assert(got[a].1@ == CapValueModel::Float(crate::http::capability::nearest_real(n)));
}

/// A handle that is removed is gone, and is told to have been there where it was; a fresh table has
/// none; a handle's id is told as it is.
pub proof fn lemma_removed_handle_is_gone(t: &mut CapTable, id: &str, r: bool, fresh: CapTable, told: Reply, n: u128, hex: String)
    requires
        old(t).wf(),
        call_ensures(CapTable::remove, (t, id), r),
        call_ensures(CapTable::new, (), fresh),
        call_ensures(advertised, (id,), told),
        call_ensures(handle_id, (n,), hex),
    ensures
        r <==> exists|i: int| 0 <= i < old(t).handles@.len() && (#[trigger] old(t).handles@[i]).id@ == id@,
        forall|i: int| 0 <= i < final(t).handles@.len() ==> (#[trigger] final(t).handles@[i]).id@ != id@,
        fresh.handles@.len() == 0,
        told.status == 200 && told.body@.at("handle_id"@) == JsonModel::Str(id@),
        hex@ == crate::numeral::digits(n as nat, 16),
{
    assert(told.status == told@.status && told.body@ == told@.body);
    reveal_with_fuel(member_from, 2);
    assert forall|i: int| 0 <= i < final(t).handles@.len() implies (#[trigger] final(t).handles@[i]).id@ != id@ by {
        assert(!final(t).has(id@));
    }
}

} // verus!
