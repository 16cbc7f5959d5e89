//! Capabilities over the gateway: advertise, renew, retract, resolve, demand, shards.
//!
//! An advertisement with a lease is bound to its client's liveness: without a heartbeat in a whole
//! window it is retracted, exactly as if the client had retracted it.
use crate::http::body::{carried, or_else, payload_at, text_of};
use crate::http::reply::{
    done, error, error_of, failure, failure_of, ok, serve, served, Reply, BAD_REQUEST, CONFLICT, NOT_FOUND,
};
use crate::json::{lemma_obj, models, object, string, Json, JsonModel};
use crate::keys::{cap_key, cap_key_of, cap_parts, is_cap_locality_key, is_locality, parse_cap_key};
use crate::node_id::{nodes, NodeId, NodeModel};
use crate::numeral::{decimal, digits, to_decimal, to_hex};
use crate::text::{join, same, texts};
use vstd::prelude::*;
use vstd::string::*;

verus! {

/// The value of a capability's attribute.
#[derive(Debug, PartialEq, Eq)]
pub enum CapValue {
    /// A text.
    Text(String),
    /// A whole number.
    Integer(i64),
    /// A real number, by its bits.
    Float(u64),
    /// A truth value.
    Bool(bool),
    /// A version.
    Version(u64, u64, u64),
}

/// What a [`CapValue`] stands for.
#[verifier::ext_equal]
pub enum CapValueModel {
    /// A text.
    Text(Seq<char>),
    /// A whole number.
    Integer(i64),
    /// A real number, by its bits.
    Float(u64),
    /// A truth value.
    Bool(bool),
    /// A version.
    Version(u64, u64, u64),
}

impl View for CapValue {
    type V = CapValueModel;

    open spec fn view(&self) -> CapValueModel {
        match self {
            CapValue::Text(s) => CapValueModel::Text(s@),
            CapValue::Integer(n) => CapValueModel::Integer(*n),
            CapValue::Float(b) => CapValueModel::Float(*b),
            CapValue::Bool(b) => CapValueModel::Bool(*b),
            CapValue::Version(a, b, c) => CapValueModel::Version(*a, *b, *c),
        }
    }
}

/// A capability.
#[derive(Debug, PartialEq, Eq)]
pub struct Capability {
    /// Its namespace.
    pub namespace: String,
    /// Its name.
    pub name: String,
    /// What it says of itself.
    pub attributes: Vec<(String, CapValue)>,
    /// Who may see it; anybody, where the list is empty.
    pub authorized_callers: Vec<String>,
}

/// Attributes, as a sequence of names and values.
pub open spec fn attribute_models(v: Seq<(String, CapValue)>) -> Seq<(Seq<char>, CapValueModel)> {
    Seq::new(v.len(), |i: int| (v[i].0@, v[i].1@))
}

/// `n` over 2048, to the nearest whole number, and between two to the even one.
pub open spec fn rounded(n: int) -> int {
    let q = n / 2048;
    let rest = n % 2048;
    if rest > 1024 || (rest == 1024 && q % 2 == 1) {
        q + 1
    } else {
        q
    }
}

/// The bits of the 64-bit floating-point number nearest to a whole number from two to the power 63 on:
/// fifty-three of its bits are kept, the first of them implied, and the exponent stands above them.
pub open spec fn nearest_real(n: int) -> u64 {
    (0x43E0_0000_0000_0000 + rounded(n) - 0x10_0000_0000_0000) as u64
}

fn real_bits(n: u64) -> (r: u64)
    requires
        n > i64::MAX,
    ensures
        r == nearest_real(n as int),
{
    let q: u64 = n / 2048;
    let rest: u64 = n % 2048;
    let m: u64 = if rest > 1024 || (rest == 1024 && q % 2 == 1) {
        q + 1
    } else {
        q
    };
    0x43E0_0000_0000_0000 + (m - 0x10_0000_0000_0000)
}

/// The attribute value a JSON value stands for, where it stands for one. A whole number beyond the
/// signed range becomes the nearest floating-point number.
pub open spec fn value_of(j: JsonModel) -> Option<CapValueModel> {
    match j {
        JsonModel::Str(s) => Some(CapValueModel::Text(s)),
        JsonModel::Int(n) => if i64::MIN <= n <= i64::MAX {
            Some(CapValueModel::Integer(n as i64))
        } else {
            Some(CapValueModel::Float(nearest_real(n)))
        },
        JsonModel::Real(b) => Some(CapValueModel::Float(b)),
        JsonModel::Bool(b) => Some(CapValueModel::Bool(b)),
        _ => None,
    }
}

fn value_from(j: &Json) -> (r: Option<CapValue>)
    ensures
        r is Some == value_of(j@) is Some,
        r matches Some(v) ==> value_of(j@) == Some(v@),
{
    match j {
        Json::Str(s) => Some(CapValue::Text(s.clone())),
        Json::UInt(n) => if *n <= i64::MAX as u64 {
            Some(CapValue::Integer(*n as i64))
        } else {
            Some(CapValue::Float(real_bits(*n)))
        },
        Json::NegInt(n) => Some(CapValue::Integer(*n)),
        Json::Real(b) => Some(CapValue::Float(*b)),
        Json::Bool(b) => Some(CapValue::Bool(*b)),
        _ => None,
    }
}

/// The attributes among the first `k` members: those whose value stands for one.
pub open spec fn attributes_of(fields: Seq<(Seq<char>, JsonModel)>, k: int) -> Seq<(Seq<char>, CapValueModel)>
    decreases k,
{
    if k <= 0 {
        Seq::empty()
    } else {
        let front = attributes_of(fields, k - 1);
        match value_of(fields[k - 1].1) {
            Some(v) => front.push((fields[k - 1].0, v)),
            None => front,
        }
    }
}

/// The attributes a body's member gives: none, where it is not an object.
pub open spec fn attributes_in(j: JsonModel) -> Seq<(Seq<char>, CapValueModel)> {
    match j {
        JsonModel::Obj(fields) => attributes_of(fields, fields.len() as int),
        _ => Seq::empty(),
    }
}

fn read_attributes(j: &Json) -> (r: Vec<(String, CapValue)>)
    ensures
        attribute_models(r@) == attributes_in(j@),
{
    let mut out: Vec<(String, CapValue)> = Vec::new();
    assert(attribute_models(out@) =~= Seq::empty());
    if let Json::Obj(v) = j {
        let ghost fields = j@->Obj_0;
        proof {
            lemma_obj(*v);
        }
        let mut k: usize = 0;
        while k < v.len()
            invariant
                k <= v@.len(),
                fields.len() == v@.len(),
                forall|i: int| 0 <= i < v@.len() ==> #[trigger] fields[i] == (v@[i].0@, v@[i].1@),
                attribute_models(out@) == attributes_of(fields, k as int),
            decreases v@.len() - k,
        {
            let ghost before = out@;
            assert(fields[k as int] == (v@[k as int].0@, v@[k as int].1@));
            if let Some(value) = value_from(&v[k].1) {
                out.push((v[k].0.clone(), value));
                assert(attribute_models(out@) =~= attribute_models(before).push(
                    (fields[k as int].0, value@),
                ));
            }
            k += 1;
        }
    }
    out
}

/// The strings among the first `k` values.
pub open spec fn strings_of(v: Seq<JsonModel>, k: int) -> Seq<Seq<char>>
    decreases k,
{
    if k <= 0 {
        Seq::empty()
    } else {
        let front = strings_of(v, k - 1);
        match v[k - 1].text() {
            Some(s) => front.push(s),
            None => front,
        }
    }
}

/// The strings of an array; none, where it is not one.
pub open spec fn strings_in(j: JsonModel) -> Seq<Seq<char>> {
    match j.elements() {
        Some(v) => strings_of(v, v.len() as int),
        None => Seq::empty(),
    }
}

fn read_strings(j: &Json) -> (r: Vec<String>)
    ensures
        texts(r@) == strings_in(j@),
{
    let mut out: Vec<String> = Vec::new();
    assert(texts(out@) =~= Seq::empty());
    if let Some(v) = j.as_array() {
        let ghost all = j@.elements()->0;
        let mut k: usize = 0;
        while k < v.len()
            invariant
                k <= v@.len(),
                all.len() == v@.len(),
                forall|i: int| 0 <= i < v@.len() ==> #[trigger] all[i] == v@[i]@,
                texts(out@) == strings_of(all, k as int),
            decreases v@.len() - k,
        {
            let ghost before = out@;
            assert(all[k as int] == v@[k as int]@);
            if let Some(s) = v[k].as_str() {
                out.push(s.to_owned());
                assert(texts(out@) =~= texts(before).push(s@));
            }
            k += 1;
        }
    }
    out
}

/// What an advertisement asks for.
#[derive(Debug, PartialEq, Eq)]
pub struct Advert {
    /// The capability.
    pub capability: Capability,
    /// Where it is kept.
    pub key: String,
    /// How often it is refreshed.
    pub interval_secs: u64,
    /// The lease's window, where there is one.
    pub lease_secs: Option<u64>,
}

/// At least one.
pub open spec fn at_least_one(n: int) -> int {
    if n < 1 {
        1
    } else {
        n
    }
}

/// Read an advertisement of this node's.
pub fn cap_advertise(body: &Json, me: &NodeId) -> (r: Result<Advert, Reply>)
    ensures
        match (body@.text_at("ns"@), body@.text_at("name"@)) {
            (None, _) => r matches Err(e) && e@ == error_of(BAD_REQUEST, "missing ns"@),
            (Some(ns), None) => r matches Err(e) && e@ == error_of(BAD_REQUEST, "missing name"@),
            (Some(ns), Some(name)) => r matches Ok(a) && {
                &&& a.capability.namespace@ == ns
                &&& a.capability.name@ == name
                &&& attribute_models(a.capability.attributes@) == attributes_in(
                    body@.at("attributes"@),
                )
                &&& texts(a.capability.authorized_callers@) == strings_in(
                    body@.at("authorized_callers"@),
                )
                &&& a.key@ == cap_key_of(me@, ns, name)
                &&& a.interval_secs == at_least_one(or_else(body@.natural_at("interval_secs"@), 30))
                &&& a.lease_secs is Some == body@.natural_at("lease_secs"@) is Some
                &&& a.lease_secs matches Some(l) ==> l == at_least_one(
                    body@.natural_at("lease_secs"@)->0,
                )
            },
        },
{
    let ns = match body.str_at("ns") {
        Some(s) => s,
        None => {
            return Err(error(BAD_REQUEST, "missing ns"));
        },
    };
    let name = match body.str_at("name") {
        Some(s) => s,
        None => {
            return Err(error(BAD_REQUEST, "missing name"));
        },
    };
    let interval: u64 = match body.u64_at("interval_secs") {
        Some(n) => n,
        None => 30,
    };
    let attributes = read_attributes(&body.at("attributes"));
    let authorized_callers = read_strings(&body.at("authorized_callers"));
    let lease_secs = match body.u64_at("lease_secs") {
        Some(n) => Some(
            if n < 1 {
                1
            } else {
                n
            },
        ),
        None => None,
    };
    Ok(
        Advert {
            capability: Capability {
                namespace: ns.to_owned(),
                name: name.to_owned(),
                attributes,
                authorized_callers,
            },
            key: cap_key(me, ns, name),
            interval_secs: if interval < 1 {
                1
            } else {
                interval
            },
            lease_secs,
        },
    )
}

/// `fastrand::u128` over its whole range. Nothing is said of the number: it is random.
#[verifier::external_body]
fn random_u128() -> u128 {
    fastrand::u128(..)
}

/// A handle's id: a number in hexadecimal.
pub fn handle_id(n: u128) -> (r: String)
    ensures
        r@ == digits(n as nat, 16),
{
    to_hex(n)
}

/// A fresh handle id.
pub fn fresh_handle_id() -> (r: String)
    ensures
        exists|n: u128| r@ == #[trigger] digits(n as nat, 16),
{
    handle_id(random_u128())
}

/// One advertised handle.
#[derive(Debug, PartialEq, Eq)]
pub struct CapHandle {
    /// Its id.
    pub id: String,
    /// The lease's window, where it has one.
    pub lease_secs: Option<u64>,
}

/// The handles that are advertised through this gateway.
#[derive(Debug, PartialEq, Eq)]
pub struct CapTable {
    /// Each id once.
    pub handles: Vec<CapHandle>,
}

impl CapTable {
    /// Does every id stand once?
    pub open spec fn wf(self) -> bool {
        forall|i: int, j: int|
            #![trigger self.handles@[i], self.handles@[j]]
            0 <= i < j < self.handles@.len() ==> self.handles@[i].id@ != self.handles@[j].id@
    }

    /// Is there such a handle, with that lease?
    pub open spec fn holds(self, id: Seq<char>, lease: Option<u64>) -> bool {
        exists|i: int|
            0 <= i < self.handles@.len() && (#[trigger] self.handles@[i]).id@ == id
                && self.handles@[i].lease_secs == lease
    }

    /// Is there such a handle?
    pub open spec fn has(self, id: Seq<char>) -> bool {
        exists|i: int| 0 <= i < self.handles@.len() && (#[trigger] self.handles@[i]).id@ == id
    }

    /// No handle.
    pub fn new() -> (r: Self)
        ensures
            r.wf(),
            r.handles@.len() == 0,
    {
        CapTable { handles: Vec::new() }
    }

    fn find(&self, id: &str) -> (r: Option<usize>)
        ensures
            r is Some == self.has(id@),
            r matches Some(i) ==> i < self.handles@.len() && self.handles@[i as int].id@ == id@,
    {
        let mut i: usize = 0;
        while i < self.handles.len()
            invariant
                i <= self.handles@.len(),
                forall|j: int| 0 <= j < i ==> (#[trigger] self.handles@[j]).id@ != id@,
            decreases self.handles@.len() - i,
        {
            if same(self.handles[i].id.as_str(), id) {
                return Some(i);
            }
            i += 1;
        }
        None
    }

    /// Retract a handle. Dropping it ends its refresh, which removes the advertisement.
    pub fn remove(&mut self, id: &str) -> (r: bool)
        requires
            old(self).wf(),
        ensures
            final(self).wf(),
            r == old(self).has(id@),
            !final(self).has(id@),
            forall|other: Seq<char>, lease: Option<u64>|
                other != id@ ==> #[trigger] final(self).holds(other, lease) == old(self).holds(other, lease),
    {
        match self.find(id) {
            None => false,
            Some(at) => {
                let ghost before = *self;
                self.handles.remove(at);
                proof {
                    let b = before.handles@;
                    let a = self.handles@;
                    assert(a =~= b.remove(at as int));
                    assert forall|i: int, j: int|
                        #![trigger a[i], a[j]]
                        0 <= i < j < a.len() implies a[i].id@ != a[j].id@ by {
                        let bi = if i < at {
                            i
                        } else {
                            i + 1
                        };
                        let bj = if j < at {
                            j
                        } else {
                            j + 1
                        };
                        assert(a[i] == b[bi] && a[j] == b[bj]);
                    }
                    assert forall|i: int| 0 <= i < a.len() implies (#[trigger] a[i]).id@ != id@ by {
                        let bi = if i < at {
                            i
                        } else {
                            i + 1
                        };
                        assert(a[i] == b[bi]);
                        assert(b[at as int].id@ == id@);
                        if bi < at {
                            assert(b[bi].id@ != b[at as int].id@);
                        } else {
                            assert(b[at as int].id@ != b[bi].id@);
                        }
                    }
                    assert forall|other: Seq<char>, lease: Option<u64>| other != id@ implies
                        #[trigger] self.holds(other, lease) == before.holds(other, lease) by {
                        if self.holds(other, lease) {
                            let i = choose|i: int|
                                0 <= i < a.len() && (#[trigger] a[i]).id@ == other && a[i].lease_secs == lease;
                            let bi = if i < at {
                                i
                            } else {
                                i + 1
                            };
                            assert(a[i] == b[bi]);
                        }
                        if before.holds(other, lease) {
                            let i = choose|i: int|
                                0 <= i < b.len() && (#[trigger] b[i]).id@ == other && b[i].lease_secs == lease;
                            let ai = if i < at {
                                i
                            } else {
                                i - 1
                            };
                            assert(i != at);
                            assert(a[ai] == b[i]);
                        }
                    }
                }
                true
            },
        }
    }

    /// Keep a handle; one of the same id makes place for it.
    pub fn insert(&mut self, id: &str, lease_secs: Option<u64>)
        requires
            old(self).wf(),
        ensures
            final(self).wf(),
            final(self).holds(id@, lease_secs),
            forall|other: Seq<char>, lease: Option<u64>|
                other != id@ ==> #[trigger] final(self).holds(other, lease) == old(self).holds(other, lease),
    {
        let ghost before = *self;
        let _ = self.remove(id);
        let ghost mid = *self;
        self.handles.push(CapHandle { id: id.to_owned(), lease_secs });
        proof {
            let m = mid.handles@;
            let a = self.handles@;
            assert(a[m.len() as int].id@ == id@);
            assert forall|i: int, j: int|
                #![trigger a[i], a[j]]
                0 <= i < j < a.len() implies a[i].id@ != a[j].id@ by {
                assert(a[i] == m[i]);
                if j < m.len() {
                    assert(a[j] == m[j]);
                } else {
                    assert(m[i].id@ != id@);
                }
            }
            assert forall|other: Seq<char>, lease: Option<u64>| other != id@ implies
                #[trigger] self.holds(other, lease) == before.holds(other, lease) by {
                assert(mid.holds(other, lease) == before.holds(other, lease));
                if self.holds(other, lease) {
                    let i = choose|i: int|
                        0 <= i < a.len() && (#[trigger] a[i]).id@ == other && a[i].lease_secs == lease;
                    assert(m[i] == a[i]);
                }
                if mid.holds(other, lease) {
                    let i = choose|i: int|
                        0 <= i < m.len() && (#[trigger] m[i]).id@ == other && m[i].lease_secs == lease;
                    assert(a[i] == m[i]);
                }
            }
        }
    }

    /// Answer a heartbeat, and say whether it restarts a lease's window.
    pub fn heartbeat(&self, id: &str) -> (r: (Reply, bool))
        requires
            self.wf(),
        ensures
            if !self.has(id@) {
                r.0@ == error_of(NOT_FOUND, "handle not found"@) && !r.1
            } else if self.holds(id@, None) {
                r.0@ == error_of(CONFLICT, "handle has no lease (advertised without lease_secs)"@) && !r.1
            } else {
                r.0@ == done() && r.1
            },
    {
        match self.find(id) {
            None => (error(NOT_FOUND, "handle not found"), false),
            Some(i) => {
                proof {
                    if self.holds(id@, None) {
                        let j = choose|j: int|
                            0 <= j < self.handles@.len() && (#[trigger] self.handles@[j]).id@ == id@
                                && self.handles@[j].lease_secs == None::<u64>;
                        if i < j {
                            assert(self.handles@[i as int].id@ != self.handles@[j].id@);
                        } else if j < i {
                            assert(self.handles@[j].id@ != self.handles@[i as int].id@);
                        }
                    }
                }
                match self.handles[i].lease_secs {
                    None => (error(CONFLICT, "handle has no lease (advertised without lease_secs)"), false),
                    Some(_) => (ok(), true),
                }
            },
        }
    }

    /// Answer a retraction.
    pub fn drop_handle(&mut self, id: &str) -> (r: Reply)
        requires
            old(self).wf(),
        ensures
            final(self).wf(),
            r@ == if old(self).has(id@) {
                done()
            } else {
                error_of(NOT_FOUND, "handle not found"@)
            },
            !final(self).has(id@),
            forall|other: Seq<char>, lease: Option<u64>|
                other != id@ ==> #[trigger] final(self).holds(other, lease) == old(self).holds(other, lease),
    {
        if self.remove(id) {
            ok()
        } else {
            error(NOT_FOUND, "handle not found")
        }
    }

    /// What a lease's watchdog does at an event.
    pub fn watch(&mut self, id: &str, event: WatchEvent) -> (r: WatchStep)
        requires
            old(self).wf(),
        ensures
            final(self).wf(),
            match event {
                WatchEvent::Shutdown => r == WatchStep::Exit && *final(self) == *old(self),
                WatchEvent::Beat => r == WatchStep::Restart && *final(self) == *old(self),
                WatchEvent::Lapsed => {
                    &&& r == if old(self).has(id@) {
                        WatchStep::Retracted
                    } else {
                        WatchStep::Exit
                    }
                    &&& !final(self).has(id@)
                    &&& forall|other: Seq<char>, lease: Option<u64>|
                        other != id@ ==> #[trigger] final(self).holds(other, lease) == old(self).holds(
                            other,
                            lease,
                        )
                },
            },
    {
        match event {
            WatchEvent::Shutdown => WatchStep::Exit,
            WatchEvent::Beat => WatchStep::Restart,
            WatchEvent::Lapsed => if self.remove(id) {
                WatchStep::Retracted
            } else {
                WatchStep::Exit
            },
        }
    }
}

/// What a lease's watchdog hears.
#[derive(Clone, Copy, Debug, PartialEq, Eq, Structural)]
pub enum WatchEvent {
    /// The node is stopping.
    Shutdown,
    /// A heartbeat came within the window.
    Beat,
    /// A whole window passed without one.
    Lapsed,
}

/// What a lease's watchdog does.
#[derive(Clone, Copy, Debug, PartialEq, Eq, Structural)]
pub enum WatchStep {
    /// Wait for another window.
    Restart,
    /// The advertisement is retracted; end.
    Retracted,
    /// End.
    Exit,
}

/// The reply to an advertisement.
pub fn advertised(id: &str) -> (r: Reply)
    ensures
        r@ == served(object().field("handle_id"@, string(id@))),
{
    serve(Json::empty_object().with_str("handle_id", id))
}

/// One entry of a scan of capabilities.
#[derive(Debug, PartialEq, Eq)]
pub struct CapScan {
    /// Its key.
    pub key: String,
    /// The capability its value decodes to.
    pub capability: Option<Capability>,
    /// Does the filter match it?
    pub matches: bool,
}

/// May this caller see it? A caller that is not named sees everything; a named one sees what is open
/// to anybody and what lists it.
pub open spec fn visible(c: Capability, caller: Option<Seq<char>>) -> bool {
    match caller {
        None => true,
        Some(id) => c.authorized_callers@.len() == 0 || texts(c.authorized_callers@).contains(id),
    }
}

fn can_see(c: &Capability, caller: Option<&str>) -> (r: bool)
    ensures
        r == visible(*c, text_of(caller)),
{
    match caller {
        None => true,
        Some(id) => {
            if c.authorized_callers.len() == 0 {
                return true;
            }
            let mut i: usize = 0;
            while i < c.authorized_callers.len()
                invariant
                    caller == Some(id),
                    i <= c.authorized_callers@.len(),
                    forall|j: int| 0 <= j < i ==> (#[trigger] c.authorized_callers@[j])@ != id@,
                decreases c.authorized_callers@.len() - i,
            {
                if same(c.authorized_callers[i].as_str(), id) {
                    assert(texts(c.authorized_callers@)[i as int] == id@);
                    return true;
                }
                i += 1;
            }
            false
        },
    }
}

/// Is this entry a provider: a capability of a node, not its locality, that the filter matches?
pub open spec fn provides(e: CapScan) -> bool {
    !is_locality(e.key@) && cap_parts(e.key@) is Some && e.capability is Some && e.matches
}

/// An attribute's value in JSON.
pub open spec fn value_json_of(v: CapValueModel) -> JsonModel {
    match v {
        CapValueModel::Text(s) => string(s),
        CapValueModel::Integer(n) => JsonModel::Int(n as int),
        CapValueModel::Float(b) => JsonModel::Real(b),
        CapValueModel::Bool(b) => JsonModel::Bool(b),
        CapValueModel::Version(a, b, c) => string(
            decimal(a as nat) + "."@ + decimal(b as nat) + "."@ + decimal(c as nat),
        ),
    }
}

/// An attribute's value in JSON.
pub fn capvalue_to_json(v: &CapValue) -> (r: Json)
    ensures
        r@ == value_json_of(v@),
{
    match v {
        CapValue::Text(s) => Json::Str(s.clone()),
        CapValue::Integer(n) => Json::integer(*n),
        CapValue::Float(b) => Json::Real(*b),
        CapValue::Bool(b) => Json::Bool(*b),
        CapValue::Version(a, b, c) => {
            let head = join(to_decimal(*a).as_str(), ".");
            let middle = join(join(head.as_str(), to_decimal(*b).as_str()).as_str(), ".");
            Json::Str(join(middle.as_str(), to_decimal(*c).as_str()))
        },
    }
}

/// Attributes as an object.
pub open spec fn attributes_json_of(v: Seq<(Seq<char>, CapValueModel)>) -> JsonModel {
    JsonModel::Obj(Seq::new(v.len(), |i: int| (v[i].0, value_json_of(v[i].1))))
}

fn attributes_json(v: &Vec<(String, CapValue)>) -> (r: Json)
    ensures
        r@ == attributes_json_of(attribute_models(v@)),
{
    let mut out: Vec<(String, Json)> = Vec::new();
    let mut k: usize = 0;
    while k < v.len()
        invariant
            k <= v@.len(),
            out@.len() == k,
            forall|i: int|
                0 <= i < k ==> (#[trigger] out@[i]).0@ == v@[i].0@ && out@[i].1@ == value_json_of(v@[i].1@),
        decreases v@.len() - k,
    {
        out.push((v[k].0.clone(), capvalue_to_json(&v[k].1)));
        k += 1;
    }
    proof {
        lemma_obj(out);
    }
    let r = Json::Obj(out);
    assert(r@->Obj_0 =~= attributes_json_of(attribute_models(v@))->Obj_0);
    r
}

/// A provider as the resolution lists it.
pub open spec fn provider_json_of(e: CapScan) -> JsonModel {
    object().field("node_id"@, string((cap_parts(e.key@)->0).0.text())).field(
        "ns"@,
        string((e.capability->0).namespace@),
    ).field("name"@, string((e.capability->0).name@)).field(
        "attributes"@,
        attributes_json_of(attribute_models((e.capability->0).attributes@)),
    )
}

/// The providers among the first `k` entries that this caller may see.
pub open spec fn listed(scan: Seq<CapScan>, caller: Option<Seq<char>>, k: int) -> Seq<JsonModel>
    decreases k,
{
    if k <= 0 {
        Seq::empty()
    } else {
        let front = listed(scan, caller, k - 1);
        if provides(scan[k - 1]) && visible(scan[k - 1].capability->0, caller) {
            front.push(provider_json_of(scan[k - 1]))
        } else {
            front
        }
    }
}

/// Answer a resolution: every provider that the filter matches and this caller may see.
pub fn cap_resolve(scan: &Vec<CapScan>, caller: Option<&str>) -> (r: Reply)
    ensures
        r@ == served(
            object().field(
                "providers"@,
                JsonModel::Arr(listed(scan@, text_of(caller), scan@.len() as int)),
            ),
        ),
{
    let mut out: Vec<Json> = Vec::new();
    let mut k: usize = 0;
    assert(models(out@) =~= Seq::empty());
    while k < scan.len()
        invariant
            k <= scan@.len(),
            models(out@) == listed(scan@, text_of(caller), k as int),
        decreases scan@.len() - k,
    {
        let ghost before = out@;
        let e = &scan[k];
        if !is_cap_locality_key(e.key.as_str()) {
            if let Some((node, _ns, _name)) = parse_cap_key(e.key.as_str()) {
                if let Some(cap) = &e.capability {
                    if e.matches && can_see(cap, caller) {
                        let entry = Json::empty_object().with_str("node_id", node.text().as_str()).with_str(
                            "ns",
                            cap.namespace.as_str(),
                        ).with_str("name", cap.name.as_str()).with(
                            "attributes",
                            attributes_json(&cap.attributes),
                        );
                        assert(entry@ == provider_json_of(*e));
                        out.push(entry);
                        assert(models(out@) =~= models(before).push(entry@));
                    }
                }
            }
        }
        k += 1;
    }
    serve(Json::empty_object().with("providers", Json::array(out)))
}

/// The nodes among the first `k` entries that provide.
pub open spec fn providers_of(scan: Seq<CapScan>, k: int) -> Seq<NodeModel>
    decreases k,
{
    if k <= 0 {
        Seq::empty()
    } else {
        let front = providers_of(scan, k - 1);
        if provides(scan[k - 1]) {
            front.push((cap_parts(scan[k - 1].key@)->0).0)
        } else {
            front
        }
    }
}

/// The nodes that provide what the filter matches, in the order of the scan. No freshness is asked for.
pub fn resolve_cap_providers(scan: &Vec<CapScan>) -> (r: Vec<NodeId>)
    ensures
        nodes(r@) == providers_of(scan@, scan@.len() as int),
{
    let mut out: Vec<NodeId> = Vec::new();
    let mut k: usize = 0;
    assert(nodes(out@) =~= Seq::empty());
    while k < scan.len()
        invariant
            k <= scan@.len(),
            nodes(out@) == providers_of(scan@, k as int),
        decreases scan@.len() - k,
    {
        let ghost before = out@;
        if !is_cap_locality_key(scan[k].key.as_str()) {
            if let Some((node, _ns, _name)) = parse_cap_key(scan[k].key.as_str()) {
                if scan[k].capability.is_some() && scan[k].matches {
                    let ghost n = node@;
                    out.push(node);
                    assert(nodes(out@) =~= nodes(before).push(n));
                }
            }
        }
        k += 1;
    }
    out
}

/// How many of the first `k` entries provide, whosever they are.
pub open spec fn provider_count(scan: Seq<CapScan>, k: int) -> nat
    decreases k,
{
    if k <= 0 {
        0
    } else {
        provider_count(scan, k - 1) + if !is_locality(scan[k - 1].key@) && scan[k - 1].capability is Some
            && scan[k - 1].matches {
            1nat
        } else {
            0
        }
    }
}

/// A requirement of some node, decoded.
#[derive(Debug, PartialEq, Eq)]
pub struct Requirement {
    /// The namespace it asks for.
    pub namespace: String,
    /// The name it asks for.
    pub name: String,
}

/// How many of the first `k` requirements ask for this.
pub open spec fn requirer_count(reqs: Seq<Option<Requirement>>, ns: Seq<char>, name: Seq<char>, k: int) -> nat
    decreases k,
{
    if k <= 0 {
        0
    } else {
        requirer_count(reqs, ns, name, k - 1) + match reqs[k - 1] {
            Some(q) if q.namespace@ == ns && q.name@ == name => 1nat,
            _ => 0,
        }
    }
}

/// How many provide it and how many ask for it. A requirement that does not decode counts for none.
pub fn demand(scan: &Vec<CapScan>, reqs: &Vec<Option<Requirement>>, ns: &str, name: &str) -> (r: (usize, usize))
    ensures
        r.0 == provider_count(scan@, scan@.len() as int),
        r.1 == requirer_count(reqs@, ns@, name@, reqs@.len() as int),
{
    let mut providers: usize = 0;
    let mut k: usize = 0;
    while k < scan.len()
        invariant
            k <= scan@.len(),
            providers <= k,
            providers == provider_count(scan@, k as int),
        decreases scan@.len() - k,
    {
        if !is_cap_locality_key(scan[k].key.as_str()) && scan[k].capability.is_some() && scan[k].matches {
            providers += 1;
        }
        k += 1;
    }
    let mut requirers: usize = 0;
    let mut j: usize = 0;
    while j < reqs.len()
        invariant
            j <= reqs@.len(),
            requirers <= j,
            requirers == requirer_count(reqs@, ns@, name@, j as int),
        decreases reqs@.len() - j,
    {
        if let Some(q) = &reqs[j] {
            if same(q.namespace.as_str(), ns) && same(q.name.as_str(), name) {
                requirers += 1;
            }
        }
        j += 1;
    }
    (providers, requirers)
}

/// The demand snapshot; the pressure is handed in by the bits of its floating-point form.
pub fn demand_reply(ns: &str, name: &str, providers: usize, requirers: usize, pressure_bits: u64) -> (r: Reply)
    ensures
        r@ == served(
            object().field("ns"@, string(ns@)).field("name"@, string(name@)).field(
                "providers"@,
                JsonModel::Int(providers as int),
            ).field("requirers"@, JsonModel::Int(requirers as int)).field(
                "demand_pressure"@,
                JsonModel::Real(pressure_bits),
            ),
        ),
{
    serve(
        Json::empty_object().with_str("ns", ns).with_str("name", name).with(
            "providers",
            Json::UInt(providers as u64),
        ).with("requirers", Json::UInt(requirers as u64)).with("demand_pressure", Json::Real(pressure_bits)),
    )
}

/// Answer who owns a shard key.
pub fn shard_owner_reply(owner: Option<&NodeId>) -> (r: Reply)
    ensures
        r@ == match owner {
            Some(n) => served(object().field("owner"@, string(n@.text()))),
            None => error_of(NOT_FOUND, "no providers"@),
        },
{
    match owner {
        Some(n) => serve(Json::empty_object().with_str("owner", n.text().as_str())),
        None => error(NOT_FOUND, "no providers"),
    }
}

/// A signal for the owner of a shard key.
#[derive(Debug, PartialEq, Eq)]
pub struct ShardEmit {
    /// The signal's kind.
    pub kind: String,
    /// The providers' namespace.
    pub ns: String,
    /// The providers' name.
    pub name: String,
    /// The key that picks the owner.
    pub shard_key: String,
    /// What the signal carries.
    pub payload: Vec<u8>,
}

/// Read a signal for the owner of a shard key. The first thing missing is the answer.
pub fn shard_emit(body: &Json) -> (r: Result<ShardEmit, Reply>)
    ensures
        if body@.text_at("kind"@) is None {
            r matches Err(e) && e@ == error_of(BAD_REQUEST, "missing kind"@)
        } else if body@.text_at("ns"@) is None {
            r matches Err(e) && e@ == error_of(BAD_REQUEST, "missing ns"@)
        } else if body@.text_at("name"@) is None {
            r matches Err(e) && e@ == error_of(BAD_REQUEST, "missing name"@)
        } else if body@.text_at("shard_key"@) is None {
            r matches Err(e) && e@ == error_of(BAD_REQUEST, "missing shard_key"@)
        } else if carried(body@.text_at("payload_b64"@)) is None {
            r matches Err(e) && e@ == error_of(BAD_REQUEST, "invalid base64"@)
        } else {
            r matches Ok(s) && Some(s.kind@) == body@.text_at("kind"@) && Some(s.ns@) == body@.text_at("ns"@)
                && Some(s.name@) == body@.text_at("name"@) && Some(s.shard_key@) == body@.text_at(
                "shard_key"@,
            ) && Some(s.payload@) == carried(body@.text_at("payload_b64"@))
        },
{
    let kind = match body.str_at("kind") {
        Some(s) => s,
        None => {
            return Err(error(BAD_REQUEST, "missing kind"));
        },
    };
    let ns = match body.str_at("ns") {
        Some(s) => s,
        None => {
            return Err(error(BAD_REQUEST, "missing ns"));
        },
    };
    let name = match body.str_at("name") {
        Some(s) => s,
        None => {
            return Err(error(BAD_REQUEST, "missing name"));
        },
    };
    let shard_key = match body.str_at("shard_key") {
        Some(s) => s,
        None => {
            return Err(error(BAD_REQUEST, "missing shard_key"));
        },
    };
    match payload_at(body, "payload_b64") {
        None => Err(error(BAD_REQUEST, "invalid base64")),
        Some(payload) => Ok(
            ShardEmit {
                kind: kind.to_owned(),
                ns: ns.to_owned(),
                name: name.to_owned(),
                shard_key: shard_key.to_owned(),
                payload,
            },
        ),
    }
}

/// Answer a signal for the owner of a shard key.
pub fn shard_emit_reply(owner: Option<&NodeId>) -> (r: Reply)
    ensures
        r@ == match owner {
            Some(n) => served(
                object().field("ok"@, JsonModel::Bool(true)).field("owner"@, string(n@.text())),
            ),
            None => failure_of(NOT_FOUND, "no providers"@),
        },
{
    match owner {
        Some(n) => serve(
            Json::empty_object().with("ok", Json::Bool(true)).with_str("owner", n.text().as_str()),
        ),
        None => failure(NOT_FOUND, "no providers"),
    }
}

/// A lapsed lease leaves the table as a retraction by the client would: the handle is gone, a heartbeat
/// for it is answered that it is not there, and the other handles stand.
pub proof fn lemma_lapse_is_retraction(
    before: CapTable,
    lapsed: CapTable,
    dropped: CapTable,
    id: Seq<char>,
    other: Seq<char>,
    lease: Option<u64>,
)
    requires
        !lapsed.has(id),
        !dropped.has(id),
        forall|o: Seq<char>, l: Option<u64>|
            o != id ==> #[trigger] lapsed.holds(o, l) == before.holds(o, l),
        forall|o: Seq<char>, l: Option<u64>|
            o != id ==> #[trigger] dropped.holds(o, l) == before.holds(o, l),
    ensures
        lapsed.holds(other, lease) == dropped.holds(other, lease),
{
    if other == id {
        assert(!lapsed.holds(id, lease)) by {
            if lapsed.holds(id, lease) {
                let i = choose|i: int|
                    0 <= i < lapsed.handles@.len() && (#[trigger] lapsed.handles@[i]).id@ == id
                        && lapsed.handles@[i].lease_secs == lease;
                assert(lapsed.handles@[i].id@ == id);
                assert(lapsed.has(id));
            }
        }
        assert(!dropped.holds(id, lease)) by {
            if dropped.holds(id, lease) {
                let i = choose|i: int|
                    0 <= i < dropped.handles@.len() && (#[trigger] dropped.handles@[i]).id@ == id
                        && dropped.handles@[i].lease_secs == lease;
                assert(dropped.handles@[i].id@ == id);
                assert(dropped.has(id));
            }
        }
    } else {
        assert(lapsed.holds(other, lease) == before.holds(other, lease));
        assert(dropped.holds(other, lease) == before.holds(other, lease));
    }
}

} // verus!
