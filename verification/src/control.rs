//! The contract every governor keeps: how often it may act, when an action counts as settled, and
//! what uncertainty about the fleet may hold back.
use vstd::prelude::*;
use vstd::string::*;

verus! {

/// What an action does, by what a wrong one costs.
#[derive(Clone, Copy, Debug, PartialEq, Eq, Structural)]
pub enum ActionClass {
    /// Filling a group that is empty.
    RescueFromZero,
    /// Filling a group that is below its bound.
    DeficitFill,
    /// Shrinking a group that reads over its bound.
    RoutineScaleDown,
}

/// How a node treats uncertainty.
#[derive(Clone, Copy, Debug, PartialEq, Eq, Structural)]
pub enum Profile {
    /// Consult nothing.
    Legacy,
    /// Act, and count what an enforcing node would have held.
    Observe,
    /// Hold what uncertainty holds.
    Enforce,
}

/// The bound a fleet view is held to before it may carry a decision.
#[derive(Clone, Copy, Debug, PartialEq, Eq, Structural)]
pub struct ConfidenceBound {}

impl Default for ConfidenceBound {
    /// The one bound there is.
    fn default() -> (r: Self)
        ensures
            r == (ConfidenceBound {  }),
    {
        ConfidenceBound {  }
    }
}

/// One governor's contract over one actuator.
#[derive(Clone, Debug, PartialEq, Eq)]
pub struct ControlSpec {
    /// Who acts.
    pub governor: String,
    /// On what.
    pub actuator: String,
    /// The least time between two actions.
    pub spacing_ms: u64,
    /// How long an action may stay unobserved before it counts as settled.
    pub settle_timeout_ms: u64,
    /// The bound on the view the governor acts on.
    pub bound: ConfidenceBound,
    /// The profile the contract was made under.
    pub profile: Profile,
}

/// One action, by who took it, on what, and its number there.
#[derive(Debug, PartialEq, Eq)]
pub struct ActionId {
    /// Who acted.
    pub governor: String,
    /// On what.
    pub actuator: String,
    /// The how-manieth action that was.
    pub seq: u64,
}

/// Whether an actuator's last action has been observed.
#[derive(Debug, PartialEq, Eq)]
pub enum SettleState {
    /// There is none to wait for.
    Idle,
    /// This one is not observed yet.
    Pending {
        /// The action.
        id: ActionId,
        /// When it was taken.
        since_ms: u64,
    },
}

/// What the confidence predicate says of an action.
#[derive(Clone, Copy, Debug, PartialEq, Eq, Structural)]
pub enum Decision {
    /// Act.
    Proceed,
    /// Act; an enforcing node would have held this.
    WouldHold,
    /// Do not act.
    Held,
}

/// `a` less `b`, and never below zero.
pub open spec fn minus(a: u64, b: u64) -> int {
    if a >= b {
        a - b
    } else {
        0
    }
}

/// Has the spacing passed since the last action?
pub open spec fn spaced(spacing_ms: u64, last_action_ms: Option<u64>, now_ms: u64) -> bool {
    match last_action_ms {
        None => true,
        Some(last) => minus(now_ms, last) >= spacing_ms,
    }
}

/// Is there an action that is neither observed nor past its time?
pub open spec fn unsettled(settle: SettleState, settle_timeout_ms: u64, now_ms: u64) -> bool {
    match settle {
        SettleState::Idle => false,
        SettleState::Pending { id, since_ms } => minus(now_ms, since_ms) < settle_timeout_ms,
    }
}

/// Has the spacing passed since the last action? Where there was none, it has.
pub fn spacing_allows(spec: &ControlSpec, last_action_ms: Option<u64>, now_ms: u64) -> (r: bool)
    ensures
        r == spaced(spec.spacing_ms, last_action_ms, now_ms),
{
    match last_action_ms {
        None => true,
        Some(last) => now_ms.saturating_sub(last) >= spec.spacing_ms,
    }
}

/// May the governor propose on this actuator? Not while its last action is unobserved and inside
/// the settle timeout.
pub fn may_propose(settle: &SettleState, spec: &ControlSpec, now_ms: u64) -> (r: bool)
    ensures
        r == !unsettled(*settle, spec.settle_timeout_ms, now_ms),
{
    match settle {
        SettleState::Idle => true,
        SettleState::Pending { id: _, since_ms } => now_ms.saturating_sub(*since_ms)
            >= spec.settle_timeout_ms,
    }
}

/// Does uncertainty about the fleet hold this class? Only the one where acting on a partition would
/// make it worse.
pub open spec fn held_class(class: ActionClass) -> bool {
    class == ActionClass::RoutineScaleDown
}

/// Does uncertainty about the fleet hold this class?
pub fn holds_on_uncertainty(class: ActionClass) -> (r: bool)
    ensures
        r == held_class(class),
{
    match class {
        ActionClass::RoutineScaleDown => true,
        _ => false,
    }
}

/// What the confidence predicate says of an action of this class, given whether the view it rests
/// on is inside its bound.
pub open spec fn decision(class: ActionClass, confident: bool, profile: Profile) -> Decision {
    if profile == Profile::Legacy || confident || !held_class(class) {
        Decision::Proceed
    } else if profile == Profile::Observe {
        Decision::WouldHold
    } else {
        Decision::Held
    }
}

/// What the confidence predicate says of an action of this class.
pub fn decide(class: ActionClass, confident: bool, profile: Profile) -> (r: Decision)
    ensures
        r == decision(class, confident, profile),
{
    match profile {
        Profile::Legacy => Decision::Proceed,
        Profile::Observe => if confident || !holds_on_uncertainty(class) {
            Decision::Proceed
        } else {
            Decision::WouldHold
        },
        Profile::Enforce => if confident || !holds_on_uncertainty(class) {
            Decision::Proceed
        } else {
            Decision::Held
        },
    }
}

} // verus!
