//! Governance over the gateway: intents are published, and every node reconciles them for itself.
//!
//! These routes never command a node. They seed soft state that nodes choose to honour, and that
//! evaporates when its publisher goes.
use crate::http::body::{named_node, node_at, or_else};
use crate::http::reply::{error, error_of, serve, served, Reply, BAD_REQUEST};
use crate::json::{models, object, string, Json, JsonModel};
use crate::membership_governor::MembershipIntent;
use crate::node_id::{nodes, NodeId, NodeModel};
use crate::numeral::{parse_radix, parsed};
use crate::text::{join, same, texts};
use vstd::prelude::*;
use vstd::string::*;

verus! {

/// Where the fleet's tuning intent is kept.
pub const GOVERN_FLEET_KEY: &'static str = "sys/govern/fleet";

/// Which way a parameter may still move.
#[derive(Clone, Copy, Debug, PartialEq, Eq, Structural)]
pub enum Ratchet {
    /// Either way.
    Off,
    /// Only up.
    Up,
    /// Only down.
    Down,
}

/// What an intent says of one parameter.
#[derive(Debug, PartialEq, Eq)]
pub struct ParamDirective {
    /// The parameter.
    pub param: String,
    /// Its least value.
    pub floor: Option<u64>,
    /// Its greatest value.
    pub ceiling: Option<u64>,
    /// Which way it may move.
    pub ratchet: Ratchet,
}

/// What a [`ParamDirective`] stands for.
#[verifier::ext_equal]
pub struct DirectiveModel {
    /// The parameter.
    pub param: Seq<char>,
    /// Its least value.
    pub floor: Option<u64>,
    /// Its greatest value.
    pub ceiling: Option<u64>,
    /// Which way it may move.
    pub ratchet: Ratchet,
}

impl View for ParamDirective {
    type V = DirectiveModel;

    open spec fn view(&self) -> DirectiveModel {
        DirectiveModel {
            param: self.param@,
            floor: self.floor,
            ceiling: self.ceiling,
            ratchet: self.ratchet,
        }
    }
}

/// The models of some directives.
pub open spec fn directive_models(v: Seq<ParamDirective>) -> Seq<DirectiveModel> {
    Seq::new(v.len(), |i: int| v[i]@)
}

/// A tuning intent, not published yet.
#[derive(Debug, PartialEq, Eq)]
pub struct GovernIntent {
    /// Whether the governor runs.
    pub enabled: Option<bool>,
    /// What it says of the parameters.
    pub params: Vec<ParamDirective>,
    /// When it was published.
    pub written_at_ms: u64,
    /// Whom it is for; everyone where `None`.
    pub target: Option<NodeId>,
}

/// The direction a text names: none names [`Ratchet::Off`].
pub open spec fn ratchet_of(s: Option<Seq<char>>) -> Option<Ratchet> {
    match s {
        None => Some(Ratchet::Off),
        Some(t) => if t == "up"@ {
            Some(Ratchet::Up)
        } else if t == "down"@ {
            Some(Ratchet::Down)
        } else if t == "off"@ {
            Some(Ratchet::Off)
        } else {
            None
        },
    }
}

/// A whole number as a machine number.
pub open spec fn small(n: Option<int>) -> Option<u64> {
    match n {
        Some(v) => Some(v as u64),
        None => None,
    }
}

/// What one directive says, or why it says nothing. `known` are the parameters there are.
pub open spec fn directive_of(d: JsonModel, known: Seq<Seq<char>>) -> Result<DirectiveModel, Seq<char>> {
    match d.text_at("param"@) {
        None => Err("param directive missing 'param'"@),
        Some(p) => if !known.contains(p) {
            Err("unknown param '"@ + p + "'"@)
        } else {
            match ratchet_of(d.text_at("ratchet"@)) {
                None => Err("unknown ratchet '"@ + d.text_at("ratchet"@)->0 + "'"@),
                Some(ratchet) => Ok(
                    DirectiveModel {
                        param: p,
                        floor: small(d.natural_at("floor"@)),
                        ceiling: small(d.natural_at("ceiling"@)),
                        ratchet,
                    },
                ),
            }
        },
    }
}

/// What the first `k` directives say, or why the first wrong one says nothing.
pub open spec fn directives_of(v: Seq<JsonModel>, known: Seq<Seq<char>>, k: int) -> Result<
    Seq<DirectiveModel>,
    Seq<char>,
>
    decreases k,
{
    if k <= 0 {
        Ok(Seq::empty())
    } else {
        match directives_of(v, known, k - 1) {
            Err(why) => Err(why),
            Ok(front) => match directive_of(v[k - 1], known) {
                Err(why) => Err(why),
                Ok(d) => Ok(front.push(d)),
            },
        }
    }
}

/// What a body says of the parameters: nothing, where it lists none.
pub open spec fn directives_in(body: JsonModel, known: Seq<Seq<char>>) -> Result<
    Seq<DirectiveModel>,
    Seq<char>,
> {
    match body.at("params"@).elements() {
        Some(v) => directives_of(v, known, v.len() as int),
        None => Ok(Seq::empty()),
    }
}

fn quoted(before: &str, what: &str) -> (r: String)
    ensures
        r@ == before@ + what@ + "'"@,
{
    join(join(before, what).as_str(), "'")
}

fn is_known(p: &str, known: &Vec<String>) -> (r: bool)
    ensures
        r == texts(known@).contains(p@),
{
    let mut i: usize = 0;
    while i < known.len()
        invariant
            i <= known@.len(),
            forall|j: int| 0 <= j < i ==> (#[trigger] known@[j])@ != p@,
        decreases known@.len() - i,
    {
        if same(known[i].as_str(), p) {
            assert(texts(known@)[i as int] == p@);
            return true;
        }
        i += 1;
    }
    false
}

fn read_directive(d: &Json, known: &Vec<String>) -> (r: Result<ParamDirective, String>)
    ensures
        match directive_of(d@, texts(known@)) {
            Ok(m) => r matches Ok(v) && v@ == m,
            Err(why) => r matches Err(e) && e@ == why,
        },
{
    let param = match d.str_at("param") {
        Some(p) => p,
        None => {
            return Err("param directive missing 'param'".to_owned());
        },
    };
    if !is_known(param, known) {
        return Err(quoted("unknown param '", param));
    }
    let ratchet = match d.str_at("ratchet") {
        None => Ratchet::Off,
        Some(t) => if same(t, "up") {
            Ratchet::Up
        } else if same(t, "down") {
            Ratchet::Down
        } else if same(t, "off") {
            Ratchet::Off
        } else {
            return Err(quoted("unknown ratchet '", t));
        },
    };
    Ok(
        ParamDirective {
            param: param.to_owned(),
            floor: d.u64_at("floor"),
            ceiling: d.u64_at("ceiling"),
            ratchet,
        },
    )
}

fn read_directives(v: &Vec<Json>, known: &Vec<String>) -> (r: Result<Vec<ParamDirective>, String>)
    ensures
        match directives_of(models(v@), texts(known@), v@.len() as int) {
            Ok(m) => r matches Ok(d) && directive_models(d@) == m,
            Err(why) => r matches Err(e) && e@ == why,
        },
{
    let mut out: Vec<ParamDirective> = Vec::new();
    let mut k: usize = 0;
    assert(directive_models(out@) =~= Seq::empty());
    while k < v.len()
        invariant
            k <= v@.len(),
            directives_of(models(v@), texts(known@), k as int) == Ok::<Seq<DirectiveModel>, Seq<char>>(
                directive_models(out@),
            ),
        decreases v@.len() - k,
    {
        let ghost before = out@;
        assert(models(v@)[k as int] == v@[k as int]@);
        match read_directive(&v[k], known) {
            Ok(d) => {
                let ghost m = d@;
                out.push(d);
                assert(directive_models(out@) =~= directive_models(before).push(m));
            },
            Err(why) => {
                proof {
                    lemma_first_error(models(v@), texts(known@), k + 1, v@.len() as int);
                }
                return Err(why);
            },
        }
        k += 1;
    }
    Ok(out)
}

proof fn lemma_first_error(v: Seq<JsonModel>, known: Seq<Seq<char>>, k: int, n: int)
    requires
        directives_of(v, known, k) is Err,
        0 <= k <= n,
    ensures
        directives_of(v, known, n) == directives_of(v, known, k),
    decreases n - k,
{
    if k < n {
        lemma_first_error(v, known, k, n - 1);
    }
}

/// Whom an intent is for: everyone, one node, or nobody there could be.
#[derive(Debug, PartialEq, Eq)]
pub enum Target {
    /// Everyone.
    All,
    /// This node.
    One(NodeId),
    /// The text names no node.
    Invalid,
}

/// Read an optional `target`.
pub fn parse_optional_target(body: &Json) -> (r: Target)
    ensures
        match body@.text_at("target"@) {
            None => r == Target::All,
            Some(s) => match named_node(Some(s)) {
                Some(n) => r matches Target::One(m) && m@ == n,
                None => r == Target::Invalid,
            },
        },
{
    match body.str_at("target") {
        None => Target::All,
        Some(s) => match NodeId::parse(s) {
            Some(n) => Target::One(n),
            None => Target::Invalid,
        },
    }
}

/// Whom a body's intent is for.
pub open spec fn target_model(t: Option<NodeId>) -> Option<NodeModel> {
    match t {
        Some(n) => Some(n@),
        None => None,
    }
}

/// Is the target one that there could be?
pub open spec fn target_valid(body: JsonModel) -> bool {
    body.text_at("target"@) is None || named_node(body.text_at("target"@)) is Some
}

/// Read a tuning intent: it must set at least one thing. `known` are the parameters there are.
pub fn govern_tuning(body: &Json, known: &Vec<String>) -> (r: Result<GovernIntent, Reply>)
    ensures
        match directives_in(body@, texts(known@)) {
            Err(why) => r matches Err(e) && e@ == error_of(BAD_REQUEST, why),
            Ok(directives) => if body@.at("enabled"@).truth() is None && directives.len() == 0 {
                r matches Err(e) && e@ == error_of(BAD_REQUEST, "intent must set 'enabled' or 'params'"@)
            } else if !target_valid(body@) {
                r matches Err(e) && e@ == error_of(BAD_REQUEST, "invalid target node id"@)
            } else {
                r matches Ok(i) && i.enabled == body@.at("enabled"@).truth() && directive_models(i.params@)
                    == directives && i.written_at_ms == 0 && target_model(i.target) == named_node(
                    body@.text_at("target"@),
                )
            },
        },
{
    let enabled = body.at("enabled").as_bool();
    let listed = body.at("params");
    let params = match listed.as_array() {
        Some(v) => {
            assert(models(v@) =~= listed@.elements()->0);
            match read_directives(v, known) {
                Ok(p) => p,
                Err(why) => {
                    return Err(error(BAD_REQUEST, why.as_str()));
                },
            }
        },
        None => {
            let none: Vec<ParamDirective> = Vec::new();
            assert(directive_models(none@) =~= Seq::empty());
            none
        },
    };
    assert(directive_models(params@).len() == params@.len());
    if enabled.is_none() && params.len() == 0 {
        return Err(error(BAD_REQUEST, "intent must set 'enabled' or 'params'"));
    }
    let target = match parse_optional_target(body) {
        Target::All => None,
        Target::One(n) => Some(n),
        Target::Invalid => {
            return Err(error(BAD_REQUEST, "invalid target node id"));
        },
    };
    Ok(GovernIntent { enabled, params, written_at_ms: 0, target })
}

/// Answer a published intent: `{"ok": taken, "key": key}`.
pub fn published(taken: bool, key: &str) -> (r: Reply)
    ensures
        r@ == served(object().field("ok"@, JsonModel::Bool(taken)).field("key"@, string(key@))),
{
    serve(Json::empty_object().with("ok", Json::Bool(taken)).with_str("key", key))
}

/// A timing intent, not published yet. Zero leaves a field ungoverned.
#[derive(Debug, PartialEq, Eq)]
pub struct TimingIntent {
    /// Between health checks.
    pub health_check_interval_secs: u64,
    /// Before a reconnection.
    pub reconnect_backoff_secs: u64,
    /// Whom it is for; everyone where `None`.
    pub target: Option<NodeId>,
    /// When it was published.
    pub written_at_ms: u64,
}

/// Read a timing intent. A target that names no node is taken for none.
pub fn govern_timing(body: &Json) -> (r: TimingIntent)
    ensures
        r.health_check_interval_secs == or_else(body@.natural_at("health_check_interval_secs"@), 0),
        r.reconnect_backoff_secs == or_else(body@.natural_at("reconnect_backoff_secs"@), 0),
        target_model(r.target) == named_node(body@.text_at("target"@)),
        r.written_at_ms == 0,
{
    let health: u64 = match body.u64_at("health_check_interval_secs") {
        Some(n) => n,
        None => 0,
    };
    let reconnect: u64 = match body.u64_at("reconnect_backoff_secs") {
        Some(n) => n,
        None => 0,
    };
    TimingIntent {
        health_check_interval_secs: health,
        reconnect_backoff_secs: reconnect,
        target: node_at(body, "target"),
        written_at_ms: 0,
    }
}

/// Answer a timing intent.
pub fn timing_published(taken: bool, key: &str) -> (r: Reply)
    ensures
        r@ == served(
            object().field("published"@, JsonModel::Bool(taken)).field("key"@, string(key@)),
        ),
{
    serve(Json::empty_object().with("published", Json::Bool(taken)).with_str("key", key))
}

/// The nodes the first `k` values drain, or why the first wrong one drains none.
pub open spec fn drained(v: Seq<JsonModel>, k: int) -> Result<Seq<NodeModel>, Seq<char>>
    decreases k,
{
    if k <= 0 {
        Ok(Seq::empty())
    } else {
        match drained(v, k - 1) {
            Err(why) => Err(why),
            Ok(front) => match v[k - 1].text() {
                None => Err("drain entries must be node-id strings"@),
                Some(s) => match named_node(Some(s)) {
                    Some(n) => Ok(front.push(n)),
                    None => Err("invalid drain node id '"@ + s + "'"@),
                },
            },
        }
    }
}

/// The nodes a body drains.
pub open spec fn drained_in(body: JsonModel) -> Result<Seq<NodeModel>, Seq<char>> {
    match body.at("drain"@).elements() {
        Some(v) => drained(v, v.len() as int),
        None => Ok(Seq::empty()),
    }
}

proof fn lemma_first_bad_drain(v: Seq<JsonModel>, k: int, n: int)
    requires
        drained(v, k) is Err,
        0 <= k <= n,
    ensures
        drained(v, n) == drained(v, k),
    decreases n - k,
{
    if k < n {
        lemma_first_bad_drain(v, k, n - 1);
    }
}

fn read_drain(v: &Vec<Json>) -> (r: Result<Vec<NodeId>, String>)
    ensures
        match drained(models(v@), v@.len() as int) {
            Ok(m) => r matches Ok(d) && nodes(d@) == m,
            Err(why) => r matches Err(e) && e@ == why,
        },
{
    let mut out: Vec<NodeId> = Vec::new();
    let mut k: usize = 0;
    assert(nodes(out@) =~= Seq::empty());
    while k < v.len()
        invariant
            k <= v@.len(),
            drained(models(v@), k as int) == Ok::<Seq<NodeModel>, Seq<char>>(nodes(out@)),
        decreases v@.len() - k,
    {
        let ghost before = out@;
        assert(models(v@)[k as int] == v@[k as int]@);
        match v[k].as_str() {
            None => {
                proof {
                    lemma_first_bad_drain(models(v@), k + 1, v@.len() as int);
                }
                return Err("drain entries must be node-id strings".to_owned());
            },
            Some(s) => match NodeId::parse(s) {
                Some(n) => {
                    let ghost m = n@;
                    out.push(n);
                    assert(nodes(out@) =~= nodes(before).push(m));
                },
                None => {
                    proof {
                        lemma_first_bad_drain(models(v@), k + 1, v@.len() as int);
                    }
                    return Err(quoted("invalid drain node id '", s));
                },
            },
        }
        k += 1;
    }
    Ok(out)
}

/// Read an elastic-sizing intent for a group: the group and its least size are required. A size beyond
/// the machine's is cut to its width.
pub fn govern_membership(body: &Json) -> (r: Result<MembershipIntent, Reply>)
    ensures
        match (body@.text_at("group"@), body@.natural_at("min"@), drained_in(body@)) {
            (None, _, _) => r matches Err(e) && e@ == error_of(BAD_REQUEST, "missing 'group'"@),
            (Some(_), None, _) => r matches Err(e) && e@ == error_of(BAD_REQUEST, "missing 'min'"@),
            (Some(_), Some(_), Err(why)) => r matches Err(e) && e@ == error_of(BAD_REQUEST, why),
            (Some(group), Some(min), Ok(drain)) => if !target_valid(body@) {
                r matches Err(e) && e@ == error_of(BAD_REQUEST, "invalid target node id"@)
            } else {
                r matches Ok(i) && {
                    &&& i.group@ == group
                    &&& i.min == min as u64 as usize
                    &&& i.max == match body@.natural_at("max"@) {
                        Some(m) => Some(m as u64 as usize),
                        None => None,
                    }
                    &&& nodes(i.drain@) == drain
                    &&& i.written_at_ms == 0
                    &&& target_model(i.target) == named_node(body@.text_at("target"@))
                }
            },
        },
{
    let group = match body.str_at("group") {
        Some(g) => g,
        None => {
            return Err(error(BAD_REQUEST, "missing 'group'"));
        },
    };
    let min: u64 = match body.u64_at("min") {
        Some(n) => n,
        None => {
            return Err(error(BAD_REQUEST, "missing 'min'"));
        },
    };
    let max = match body.u64_at("max") {
        Some(n) => Some(#[verifier::truncate] (n as usize)),
        None => None,
    };
    let listed = body.at("drain");
    let drain = match listed.as_array() {
        Some(v) => {
            assert(models(v@) =~= listed@.elements()->0);
            match read_drain(v) {
                Ok(d) => d,
                Err(why) => {
                    return Err(error(BAD_REQUEST, why.as_str()));
                },
            }
        },
        None => {
            let none: Vec<NodeId> = Vec::new();
            assert(nodes(none@) =~= Seq::empty());
            none
        },
    };
    let intent = MembershipIntent::new(group, #[verifier::truncate] (min as usize), max).with_drain(drain);
    match parse_optional_target(body) {
        Target::All => Ok(intent),
        Target::One(n) => Ok(intent.for_node(n)),
        Target::Invalid => Err(error(BAD_REQUEST, "invalid target node id")),
    }
}

/// The moment an explanation starts from: zero, where the query names none that is a number.
pub fn explain_since(since: Option<&str>) -> (r: u64)
    ensures
        r == match since {
            Some(s) => match parsed(s@, 10) {
                Some(n) => n as u64,
                None => 0,
            },
            None => 0,
        },
{
    match since {
        Some(s) => match parse_radix(s, 10) {
            Some(n) => n,
            None => 0,
        },
        None => 0,
    }
}

/// One parameter as the snapshot shows it.
#[derive(Debug, PartialEq, Eq)]
pub struct ParamSnapshot {
    /// The parameter.
    pub param: String,
    /// Its least value.
    pub floor: u64,
    /// Its greatest value.
    pub ceiling: u64,
    /// Which way it may move.
    pub ratchet: Ratchet,
    /// Whether this node pinned it itself.
    pub locally_pinned: bool,
}

/// A direction as the snapshot names it.
pub open spec fn ratchet_name(r: Ratchet) -> Seq<char> {
    match r {
        Ratchet::Off => "off"@,
        Ratchet::Up => "up"@,
        Ratchet::Down => "down"@,
    }
}

/// One parameter in JSON.
pub open spec fn snapshot_json(p: ParamSnapshot) -> JsonModel {
    object().field("param"@, string(p.param@)).field("floor"@, JsonModel::Int(p.floor as int)).field(
        "ceiling"@,
        JsonModel::Int(p.ceiling as int),
    ).field("ratchet"@, string(ratchet_name(p.ratchet))).field(
        "locally_pinned"@,
        JsonModel::Bool(p.locally_pinned),
    )
}

/// Answer with this node's own effective state; the fleet's picture is every node's answer.
pub fn govern_snapshot(me: &NodeId, auto_enabled: bool, params: &Vec<ParamSnapshot>) -> (r: Reply)
    ensures
        r@ == served(
            object().field("node_id"@, string(me@.text())).field(
                "auto_enabled"@,
                JsonModel::Bool(auto_enabled),
            ).field(
                "params"@,
                JsonModel::Arr(Seq::new(params@.len(), |i: int| snapshot_json(params@[i]))),
            ),
        ),
{
    let mut out: Vec<Json> = Vec::new();
    let mut k: usize = 0;
    while k < params.len()
        invariant
            k <= params@.len(),
            out@.len() == k,
            forall|i: int| 0 <= i < k ==> (#[trigger] out@[i])@ == snapshot_json(params@[i]),
        decreases params@.len() - k,
    {
        let p = &params[k];
        let ratchet = match p.ratchet {
            Ratchet::Off => "off",
            Ratchet::Up => "up",
            Ratchet::Down => "down",
        };
        out.push(
            Json::empty_object().with_str("param", p.param.as_str()).with("floor", Json::UInt(p.floor)).with(
                "ceiling",
                Json::UInt(p.ceiling),
            ).with_str("ratchet", ratchet).with("locally_pinned", Json::Bool(p.locally_pinned)),
        );
        k += 1;
    }
    assert(models(out@) =~= Seq::new(params@.len(), |i: int| snapshot_json(params@[i])));
    serve(
        Json::empty_object().with_str("node_id", me.text().as_str()).with(
            "auto_enabled",
            Json::Bool(auto_enabled),
        ).with("params", Json::array(out)),
    )
}

} // verus!
