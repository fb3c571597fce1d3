//! One reconciliation pass as a state machine. The machine asks for one
//! outside action at a time; whoever drives it performs the action and hands
//! back what came of it.

use crate::changelog::MuxWriter;
use crate::hosts::{distinct_zones, zones_to_fetch, DesiredHost, HostSpec};
use crate::ipv4::{ipv4_of_text, parse_ipv4, Ipv4};
use crate::reconcile::{
    is_notable, planned_effects, planned_lines, reconcile, Effect, EffectSpec, Plan,
};
use crate::records::{absorbed, FetchedRecord, FetchedSpec, RecordCache, RecordSpec};
use crate::text::join_with;
use vstd::prelude::*;

verus! {

/// Why a pass failed, with the message to report.
#[derive(Clone, Debug, PartialEq, Eq)]
pub enum PassError {
    /// The public address could not be found out. Nothing was written.
    IpResolution(String),
    /// A call to the provider failed. What was written before it stands.
    Provider(String),
}

/// The mathematical value of a [`PassError`].
pub enum PassErrorSpec {
    IpResolution(Seq<char>),
    Provider(Seq<char>),
}

impl View for PassError {
    type V = PassErrorSpec;

    open spec fn view(&self) -> PassErrorSpec {
        match *self {
            PassError::IpResolution(message) => PassErrorSpec::IpResolution(message@),
            PassError::Provider(message) => PassErrorSpec::Provider(message@),
        }
    }
}

/// The message that a failure carries.
pub open spec fn failure_message(error: PassErrorSpec) -> Seq<char> {
    match error {
        PassErrorSpec::IpResolution(message) => message,
        PassErrorSpec::Provider(message) => message,
    }
}

impl PassError {
    /// The message to report for the failure.
    pub fn message(&self) -> (text: String)
        ensures
            text@ == failure_message(self@),
    {
        match self {
            PassError::IpResolution(message) => message.clone(),
            PassError::Provider(message) => message.clone(),
        }
    }
}

/// The direction in which the provider is asked to order a listing.
#[derive(Clone, Copy, Debug, PartialEq, Eq, Structural)]
pub enum Direction {
    Ascending,
    Descending,
}

/// What the machine asks its driver to do next.
#[derive(Clone, Debug, PartialEq, Eq)]
pub enum Action {
    /// Ask the discovery endpoint for the public address.
    ResolveIp,
    /// List the records of a zone, in the given order.
    ListRecords { zone_id: String, direction: Direction },
    /// Make one create or update call.
    Apply(Effect),
    /// Nothing: the pass is over.
    Stop,
}

/// The mathematical value of an [`Action`].
pub enum ActionSpec {
    ResolveIp,
    ListRecords { zone_id: Seq<char>, direction: Direction },
    Apply(EffectSpec),
    Stop,
}

impl View for Action {
    type V = ActionSpec;

    open spec fn view(&self) -> ActionSpec {
        match *self {
            Action::ResolveIp => ActionSpec::ResolveIp,
            Action::ListRecords { zone_id, direction } => ActionSpec::ListRecords {
                zone_id: zone_id@,
                direction,
            },
            Action::Apply(effect) => ActionSpec::Apply(effect@),
            Action::Stop => ActionSpec::Stop,
        }
    }
}

/// What came of the action that the machine asked for.
#[derive(Clone, Debug, PartialEq, Eq)]
pub enum Event {
    /// The discovery endpoint answered with this body.
    IpAnswered(String),
    /// The discovery endpoint could not be reached.
    IpUnreachable(String),
    /// The provider listed these records for the zone.
    RecordsListed(Vec<FetchedRecord>),
    /// The provider carried out the call.
    EffectApplied,
    /// The provider could not be reached, or refused.
    ProviderFailed(String),
}

/// The mathematical value of an [`Event`].
pub enum EventSpec {
    IpAnswered(Seq<char>),
    IpUnreachable(Seq<char>),
    RecordsListed(Seq<FetchedSpec>),
    EffectApplied,
    ProviderFailed(Seq<char>),
}

impl View for Event {
    type V = EventSpec;

    open spec fn view(&self) -> EventSpec {
        match *self {
            Event::IpAnswered(body) => EventSpec::IpAnswered(body@),
            Event::IpUnreachable(message) => EventSpec::IpUnreachable(message@),
            Event::RecordsListed(records) => EventSpec::RecordsListed(records.deep_view()),
            Event::EffectApplied => EventSpec::EffectApplied,
            Event::ProviderFailed(message) => EventSpec::ProviderFailed(message@),
        }
    }
}

/// Where a pass stands.
pub enum PhaseSpec {
    /// The address is not known yet.
    AwaitingIp,
    /// The first `fetched` of `zones` have been listed into `cache`.
    Fetching { ip: Ipv4, zones: Seq<Seq<char>>, fetched: nat, cache: Map<Seq<char>, RecordSpec> },
    /// The first `applied` of `effects` have been carried out.
    Applying { effects: Seq<EffectSpec>, applied: nat, lines: Seq<Seq<char>>, notable: bool },
    /// All calls were carried out; `applied` is their number.
    Succeeded { lines: Seq<Seq<char>>, notable: bool, applied: nat },
    /// The pass was given up after `applied` calls.
    Failed { error: PassErrorSpec, applied: nat },
}

/// The mathematical value of a [`Pass`].
pub struct PassSpec {
    pub hosts: Seq<HostSpec>,
    pub phase: PhaseSpec,
}

/// The message of a pass that failed because the discovery endpoint's answer
/// is no IPv4 address.
pub open spec fn bad_address_message() -> Seq<char> {
    "invalid IPv4 address syntax"@
}

/// The phase once all records are there: the plan is made, and the pass is
/// over at once if the plan holds no call.
pub open spec fn planned(
    hosts: Seq<HostSpec>,
    cache: Map<Seq<char>, RecordSpec>,
    ip: Ipv4,
) -> PhaseSpec {
    let effects = planned_effects(hosts, cache, ip);
    let lines = planned_lines(hosts, cache, ip);
    let notable = is_notable(hosts, cache, ip);
    if effects.len() == 0 {
        PhaseSpec::Succeeded { lines, notable, applied: 0 }
    } else {
        PhaseSpec::Applying { effects, applied: 0, lines, notable }
    }
}

/// The phase once `fetched` zones have been listed: the next zone is due,
/// or, after the last one, the plan.
pub open spec fn fetching(
    hosts: Seq<HostSpec>,
    ip: Ipv4,
    zones: Seq<Seq<char>>,
    fetched: nat,
    cache: Map<Seq<char>, RecordSpec>,
) -> PhaseSpec {
    if fetched < zones.len() {
        PhaseSpec::Fetching { ip, zones, fetched, cache }
    } else {
        planned(hosts, cache, ip)
    }
}

/// The action that is due in a state. Records are always asked for in
/// ascending order, so that two passes over the same records see them alike.
pub open spec fn pending_action(state: PassSpec) -> ActionSpec {
    match state.phase {
        PhaseSpec::AwaitingIp => ActionSpec::ResolveIp,
        PhaseSpec::Fetching { zones, fetched, .. } => ActionSpec::ListRecords {
            zone_id: zones[fetched as int],
            direction: Direction::Ascending,
        },
        PhaseSpec::Applying { effects, applied, .. } => ActionSpec::Apply(effects[applied as int]),
        PhaseSpec::Succeeded { .. } => ActionSpec::Stop,
        PhaseSpec::Failed { .. } => ActionSpec::Stop,
    }
}

/// The state that follows `state` on `event`. An event that does not answer
/// the action that is due leaves the state as it is.
pub open spec fn next_state(state: PassSpec, event: EventSpec) -> PassSpec {
    let hosts = state.hosts;
    let phase = match state.phase {
        PhaseSpec::AwaitingIp => match event {
            EventSpec::IpAnswered(body) => match ipv4_of_text(body) {
                Some(ip) => fetching(hosts, ip, distinct_zones(hosts), 0, Map::empty()),
                None => PhaseSpec::Failed {
                    error: PassErrorSpec::IpResolution(bad_address_message()),
                    applied: 0,
                },
            },
            EventSpec::IpUnreachable(message) => PhaseSpec::Failed {
                error: PassErrorSpec::IpResolution(message),
                applied: 0,
            },
            _ => state.phase,
        },
        PhaseSpec::Fetching { ip, zones, fetched, cache } => match event {
            EventSpec::RecordsListed(records) => fetching(
                hosts,
                ip,
                zones,
                fetched + 1,
                absorbed(cache, records),
            ),
            EventSpec::ProviderFailed(message) => PhaseSpec::Failed {
                error: PassErrorSpec::Provider(message),
                applied: 0,
            },
            _ => state.phase,
        },
        PhaseSpec::Applying { effects, applied, lines, notable } => match event {
            EventSpec::EffectApplied => if applied + 1 < effects.len() {
                PhaseSpec::Applying { effects, applied: applied + 1, lines, notable }
            } else {
                PhaseSpec::Succeeded { lines, notable, applied: applied + 1 }
            },
            EventSpec::ProviderFailed(message) => PhaseSpec::Failed {
                error: PassErrorSpec::Provider(message),
                applied,
            },
            _ => state.phase,
        },
        PhaseSpec::Succeeded { .. } => state.phase,
        PhaseSpec::Failed { .. } => state.phase,
    };
    PassSpec { hosts, phase }
}

/// What a finished pass reports: its text, and whether it is worth a
/// notification. A pass that succeeded reports its log; one that failed
/// reports the failure, which is always notable.
pub open spec fn report_of(phase: PhaseSpec) -> Option<(Seq<char>, bool)> {
    match phase {
        PhaseSpec::Succeeded { lines, notable, .. } => Some((join_with(lines, seq!['\n']), notable)),
        PhaseSpec::Failed { error, .. } => Some((failure_message(error), true)),
        _ => None,
    }
}

#[derive(Debug)]
enum Phase {
    AwaitingIp,
    Fetching { ip: Ipv4, zones: Vec<String>, fetched: usize, cache: RecordCache },
    Applying { plan: Plan, applied: usize },
    Succeeded { log: MuxWriter, applied: usize },
    Failed { error: PassError, applied: usize },
}

/// A reconciliation pass under way.
#[derive(Debug)]
pub struct Pass {
    hosts: Vec<DesiredHost>,
    phase: Phase,
}

impl View for Pass {
    type V = PassSpec;

    closed spec fn view(&self) -> PassSpec {
        PassSpec {
            hosts: self.hosts.deep_view(),
            phase: match self.phase {
                Phase::AwaitingIp => PhaseSpec::AwaitingIp,
                Phase::Fetching { ip, zones, fetched, cache } => PhaseSpec::Fetching {
                    ip,
                    zones: zones.deep_view(),
                    fetched: fetched as nat,
                    cache: cache@,
                },
                Phase::Applying { plan, applied } => PhaseSpec::Applying {
                    effects: plan.effects.deep_view(),
                    applied: applied as nat,
                    lines: plan.log.lines(),
                    notable: plan.log.should_notify,
                },
                Phase::Succeeded { log, applied } => PhaseSpec::Succeeded {
                    lines: log.lines(),
                    notable: log.should_notify,
                    applied: applied as nat,
                },
                Phase::Failed { error, applied } => PhaseSpec::Failed {
                    error: error@,
                    applied: applied as nat,
                },
            },
        }
    }
}

/// A copy of `effect`.
fn copy_of_effect(effect: &Effect) -> (copy: Effect)
    ensures
        copy@ == effect@,
{
    match effect {
        Effect::Create { zone_id, name, address, ttl, proxied } => Effect::Create {
            zone_id: zone_id.clone(),
            name: name.clone(),
            address: *address,
            ttl: *ttl,
            proxied: *proxied,
        },
        Effect::Update { zone_id, record_id, name, address, ttl, proxied } => Effect::Update {
            zone_id: zone_id.clone(),
            record_id: record_id.clone(),
            name: name.clone(),
            address: *address,
            ttl: *ttl,
            proxied: *proxied,
        },
    }
}

impl Pass {
    #[verifier::type_invariant]
    spec fn well_formed(self) -> bool {
        match self.phase {
            Phase::Fetching { zones, fetched, .. } => fetched < zones.len(),
            Phase::Applying { plan, applied } => applied < plan.effects.len(),
            _ => true,
        }
    }

    /// A pass for `hosts` that has not begun: the address is asked for first.
    pub fn begin(hosts: Vec<DesiredHost>) -> (pass: Pass)
        ensures
            pass@ == (PassSpec { hosts: hosts.deep_view(), phase: PhaseSpec::AwaitingIp }),
    {
        Pass { hosts, phase: Phase::AwaitingIp }
    }

    /// The action that is due.
    pub fn pending(&self) -> (action: Action)
        ensures
            action@ == pending_action(self@),
    {
        proof {
            use_type_invariant(self);
        }
        match &self.phase {
            Phase::AwaitingIp => Action::ResolveIp,
            Phase::Fetching { zones, fetched, .. } => Action::ListRecords {
                zone_id: zones[*fetched].clone(),
                direction: Direction::Ascending,
            },
            Phase::Applying { plan, applied } => Action::Apply(
                copy_of_effect(&plan.effects[*applied]),
            ),
            Phase::Succeeded { .. } => Action::Stop,
            Phase::Failed { .. } => Action::Stop,
        }
    }

    /// Whether the pass is over, one way or the other.
    pub fn is_over(&self) -> (over: bool)
        ensures
            over == (self@.phase is Succeeded || self@.phase is Failed),
    {
        match &self.phase {
            Phase::Succeeded { .. } => true,
            Phase::Failed { .. } => true,
            _ => false,
        }
    }

    /// Why the pass failed, if it did.
    pub fn failure(&self) -> (error: Option<PassError>)
        ensures
            match error {
                Some(e) => self@.phase matches PhaseSpec::Failed { error: why, .. } && why == e@,
                None => !(self@.phase is Failed),
            },
    {
        match &self.phase {
            Phase::Failed { error, .. } => Some(
                match error {
                    PassError::IpResolution(message) => PassError::IpResolution(message.clone()),
                    PassError::Provider(message) => PassError::Provider(message.clone()),
                },
            ),
            _ => None,
        }
    }

    /// How many create and update calls the provider has carried out.
    pub fn applied(&self) -> (count: usize)
        ensures
            count == applied_calls(self@.phase),
    {
        match &self.phase {
            Phase::Applying { applied, .. } => *applied,
            Phase::Succeeded { applied, .. } => *applied,
            Phase::Failed { applied, .. } => *applied,
            _ => 0,
        }
    }

    /// Takes in what came of the action that was due, and moves on.
    pub fn step(self, event: Event) -> (next: Pass)
        ensures
            next@ == next_state(self@, event@),
    {
        proof {
            use_type_invariant(&self);
        }
        let Pass { hosts, phase } = self;
        match phase {
            Phase::AwaitingIp => match event {
                Event::IpAnswered(body) => match parse_ipv4(body.as_str()) {
                    Some(ip) => {
                        let zones = zones_to_fetch(&hosts);
                        after_fetch(hosts, ip, zones, 0, RecordCache::new())
                    },
                    None => {
                        let mut message = String::new();
                        message.append("invalid IPv4 address syntax");
                        Pass {
                            hosts,
                            phase: Phase::Failed {
                                error: PassError::IpResolution(message),
                                applied: 0,
                            },
                        }
                    },
                },
                Event::IpUnreachable(message) => Pass {
                    hosts,
                    phase: Phase::Failed { error: PassError::IpResolution(message), applied: 0 },
                },
                _ => Pass { hosts, phase: Phase::AwaitingIp },
            },
            Phase::Fetching { ip, zones, fetched, cache } => match event {
                Event::RecordsListed(records) => {
                    let mut cache = cache;
                    cache.absorb(&records);
                    after_fetch(hosts, ip, zones, fetched + 1, cache)
                },
                Event::ProviderFailed(message) => Pass {
                    hosts,
                    phase: Phase::Failed { error: PassError::Provider(message), applied: 0 },
                },
                _ => Pass { hosts, phase: Phase::Fetching { ip, zones, fetched, cache } },
            },
            Phase::Applying { plan, applied } => match event {
                Event::EffectApplied => {
                    if applied + 1 < plan.effects.len() {
                        Pass { hosts, phase: Phase::Applying { plan, applied: applied + 1 } }
                    } else {
                        let Plan { effects, log } = plan;
                        Pass { hosts, phase: Phase::Succeeded { log, applied: applied + 1 } }
                    }
                },
                Event::ProviderFailed(message) => Pass {
                    hosts,
                    phase: Phase::Failed { error: PassError::Provider(message), applied },
                },
                _ => Pass { hosts, phase: Phase::Applying { plan, applied } },
            },
            Phase::Succeeded { log, applied } => Pass {
                hosts,
                phase: Phase::Succeeded { log, applied },
            },
            Phase::Failed { error, applied } => Pass { hosts, phase: Phase::Failed { error, applied } },
        }
    }

    /// The text to report for a pass that is over, and whether it is worth a
    /// notification; nothing for a pass that is still under way.
    pub fn into_report(self) -> (report: Option<(String, bool)>)
        ensures
            match report {
                Some((text, notable)) => report_of(self@.phase) == Some((text@, notable)),
                None => report_of(self@.phase) is None,
            },
    {
        let Pass { hosts, phase } = self;
        match phase {
            Phase::Succeeded { log, applied } => {
                let mut log = log;
                Some(log.drain())
            },
            Phase::Failed { error, applied } => Some((error.message(), true)),
            _ => None,
        }
    }
}

/// The number of calls that the provider has carried out in a phase.
pub open spec fn applied_calls(phase: PhaseSpec) -> nat {
    match phase {
        PhaseSpec::Applying { applied, .. } => applied,
        PhaseSpec::Succeeded { applied, .. } => applied,
        PhaseSpec::Failed { applied, .. } => applied,
        _ => 0,
    }
}

/// The pass once `fetched` zones have been listed into `cache`.
fn after_fetch(
    hosts: Vec<DesiredHost>,
    ip: Ipv4,
    zones: Vec<String>,
    fetched: usize,
    cache: RecordCache,
) -> (pass: Pass)
    ensures
        pass@ == (PassSpec {
            hosts: hosts.deep_view(),
            phase: fetching(hosts.deep_view(), ip, zones.deep_view(), fetched as nat, cache@),
        }),
{
    if fetched < zones.len() {
        Pass { hosts, phase: Phase::Fetching { ip, zones, fetched, cache } }
    } else {
        let plan = reconcile(&hosts, &cache, ip);
        if plan.effects.len() == 0 {
            let Plan { effects, log } = plan;
            Pass { hosts, phase: Phase::Succeeded { log, applied: 0 } }
        } else {
            Pass { hosts, phase: Phase::Applying { plan, applied: 0 } }
        }
    }
}

} // verus!
