//! Shared transport for "management = intent + local reconcile": freshness, evaporation and
//! targeting. What an intent means stays with its governor.
use crate::control::minus;
use crate::node_id::{NodeId, NodeModel};
use std::time::{Duration, SystemTime};
use vstd::prelude::*;

verus! {

/// A gossiped, evaporating, optionally node-targeted governance intent. The transport reads these
/// three facets; everything else about the intent is the governor's business.
pub trait FleetIntent: Sized {
    /// When the intent was published.
    spec fn published(&self) -> u64;

    /// Whom it is for.
    spec fn aimed_at(&self) -> Option<NodeModel>;

    /// The intent with another publish time, otherwise unchanged.
    spec fn stamped(self, now_ms: u64) -> Self;

    /// Unix-ms the intent was published. Used for evaporation.
    fn written_at_ms(&self) -> (r: u64)
        ensures
            r == self.published(),
    ;

    /// Stamp the publish time (called by [`publish_intent`]).
    fn stamp(&mut self, now_ms: u64)
        ensures
            *final(self) == old(self).stamped(now_ms),
            final(self).published() == now_ms,
            final(self).aimed_at() == old(self).aimed_at(),
    ;

    /// `None` = whole fleet; `Some(node)` = only that node applies it.
    fn target(&self) -> (r: Option<&NodeId>)
        ensures
            r is Some == self.aimed_at() is Some,
            r matches Some(n) ==> self.aimed_at() == Some(n@),
    ;
}

/// Is the intent inside its window, and for `me` or the whole fleet?
pub open spec fn in_force<I: FleetIntent>(intent: I, me: NodeModel, ttl_ms: u64, now_ms: u64) -> bool {
    &&& minus(now_ms, intent.published()) <= ttl_ms
    &&& intent.aimed_at() is None || intent.aimed_at() == Some(me)
}

/// A reading of the system clock: opaque here.
#[verifier::external_type_specification]
#[verifier::external_body]
pub struct ExSystemTime(std::time::SystemTime);

/// How far behind the Unix epoch a reading lies, where it lies behind it.
pub uninterp spec fn since_epoch(t: std::time::SystemTime) -> Option<std::time::Duration>;

/// The whole milliseconds of a duration.
pub uninterp spec fn whole_millis(d: std::time::Duration) -> u128;

/// `SystemTime::now`: a reading of the system clock. Nothing is claimed of it: it is the time.
#[verifier::external_body]
fn clock() -> (r: SystemTime) {
    SystemTime::now()
}

/// `SystemTime::duration_since` of the Unix epoch: how far behind it a reading lies.
#[verifier::external_body]
fn distance(t: SystemTime) -> (r: Option<Duration>)
    ensures
        r == since_epoch(t),
{
    t.duration_since(std::time::UNIX_EPOCH).ok()
}

/// `Duration::as_millis`: the whole milliseconds of a duration.
#[verifier::external_body]
fn millis(d: Duration) -> (r: u128)
    ensures
        r == whole_millis(d),
{
    d.as_millis()
}

/// The timestamp of a reading of the clock.
pub open spec fn stamp_of(t: SystemTime) -> u64 {
    match since_epoch(t) {
        Some(d) => whole_millis(d) as u64,
        None => 0,
    }
}

/// A distance from the Unix epoch as a timestamp: `0` before the epoch.
pub fn timestamp_of(since_epoch_ms: Option<u128>) -> (r: u64)
    ensures
        r == match since_epoch_ms {
            Some(ms) => ms as u64,
            None => 0,
        },
{
    match since_epoch_ms {
        Some(ms) => #[verifier::truncate] (ms as u64),
        None => 0,
    }
}

/// Unix-ms now (saturating to 0 before the epoch).
pub fn now_ms() -> (r: u64)
    ensures
        exists|t: SystemTime| r == #[trigger] stamp_of(t),
{
    let t = clock();
    let ghost read = t;
    let since: Option<u128> = match distance(t) {
        Some(d) => Some(millis(d)),
        None => None,
    };
    let r: u64 = timestamp_of(since);
    assert(r == stamp_of(read));
    r
}

/// The intent as it is published: stamped `now_ms`, otherwise unchanged.
pub fn publish_intent<I: FleetIntent>(intent: I, now_ms: u64) -> (r: I)
    ensures
        r == intent.stamped(now_ms),
        r.published() == now_ms,
        r.aimed_at() == intent.aimed_at(),
{
    let mut intent = intent;
    intent.stamp(now_ms);
    intent
}

/// Is the intent inside its window, and for `me` or the whole fleet?
pub fn applies<I: FleetIntent>(intent: &I, me: &NodeId, ttl_ms: u64, now_ms: u64) -> (r: bool)
    ensures
        r == in_force(*intent, me@, ttl_ms, now_ms),
{
    let for_me = match intent.target() {
        None => true,
        Some(t) => t.is(me),
    };
    for_me && now_ms.saturating_sub(intent.written_at_ms()) <= ttl_ms
}

/// The intent read under a key, **iff** it is fresh (within `ttl_ms`) and targeted at `me` (or the
/// whole fleet). `decoded` is `None` where the key is absent or its value does not decode.
pub fn read_fresh_intent<I: FleetIntent>(decoded: Option<I>, me: &NodeId, ttl_ms: u64, now_ms: u64) -> (r:
    Option<I>)
    ensures
        r == match decoded {
            Some(i) if in_force(i, me@, ttl_ms, now_ms) => Some(i),
            _ => None,
        },
{
    match decoded {
        Some(i) => {
            if applies(&i, me, ttl_ms, now_ms) {
                Some(i)
            } else {
                None
            }
        },
        None => None,
    }
}

/// What a reconcile pass does.
#[derive(Debug, PartialEq, Eq)]
pub enum Reconcile<I> {
    /// The intent is in force: apply it.
    Apply(I),
    /// Absent, evaporated or not for this node: go back to local derivation.
    Revert,
}

/// Apply the intent read under a key if it is in force, and otherwise revert. Shared by the
/// subscribe and the periodic path.
pub fn reconcile_intent<I: FleetIntent>(decoded: Option<I>, me: &NodeId, ttl_ms: u64, now_ms: u64) -> (r:
    Reconcile<I>)
    ensures
        r == match decoded {
            Some(i) if in_force(i, me@, ttl_ms, now_ms) => Reconcile::Apply(i),
            _ => Reconcile::Revert,
        },
{
    match read_fresh_intent(decoded, me, ttl_ms, now_ms) {
        Some(i) => Reconcile::Apply(i),
        None => Reconcile::Revert,
    }
}

/// How often the reconcile loop looks without being told: twice per window, so an evaporated intent
/// is noticed within it.
pub fn reconcile_tick_ms(ttl_ms: u64) -> (r: u64)
    ensures
        r == if ttl_ms < 2 {
            1
        } else {
            ttl_ms / 2
        },
{
    let half: u64 = ttl_ms / 2;
    if half < 1 {
        1
    } else {
        half
    }
}

/// A published intent is in force for whomever it is aimed at until its window has passed, and for
/// nobody once it has.
pub proof fn lemma_intent_evaporates<I: FleetIntent>(intent: I, me: NodeModel, ttl_ms: u64, now_ms: u64)
    requires
        now_ms >= intent.published(),
        intent.aimed_at() is None || intent.aimed_at() == Some(me),
    ensures
        in_force(intent, me, ttl_ms, now_ms) <==> now_ms - intent.published() <= ttl_ms,
{
}

/// An intent aimed at one node is never in force for another.
pub proof fn lemma_intent_is_targeted<I: FleetIntent>(intent: I, me: NodeModel, ttl_ms: u64, now_ms: u64)
    requires
        intent.aimed_at() is Some,
        intent.aimed_at() != Some(me),
    ensures
        !in_force(intent, me, ttl_ms, now_ms),
{
}

} // verus!
