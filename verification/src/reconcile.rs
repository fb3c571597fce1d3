//! The reconciler: what has to be done so that every desired host points at
//! the resolved address.

use crate::changelog::MuxWriter;
use crate::hosts::{DesiredHost, HostSpec};
use crate::ipv4::Ipv4;
use crate::records::{RecordCache, RecordSpec};
use vstd::prelude::*;

verus! {

/// The time to live that every written record gets: the provider's marker
/// for "automatic".
pub const TTL_AUTOMATIC: u32 = 1;

/// One call to the provider that changes a record. A written record is never
/// proxied: it has to resolve to the address itself.
#[derive(Clone, Debug, PartialEq, Eq)]
pub enum Effect {
    Create { zone_id: String, name: String, address: Ipv4, ttl: u32, proxied: bool },
    Update {
        zone_id: String,
        record_id: String,
        name: String,
        address: Ipv4,
        ttl: u32,
        proxied: bool,
    },
}

/// The mathematical value of an [`Effect`].
pub enum EffectSpec {
    Create { zone_id: Seq<char>, name: Seq<char>, address: Ipv4, ttl: u32, proxied: bool },
    Update {
        zone_id: Seq<char>,
        record_id: Seq<char>,
        name: Seq<char>,
        address: Ipv4,
        ttl: u32,
        proxied: bool,
    },
}

impl View for Effect {
    type V = EffectSpec;

    open spec fn view(&self) -> EffectSpec {
        match *self {
            Effect::Create { zone_id, name, address, ttl, proxied } => EffectSpec::Create {
                zone_id: zone_id@,
                name: name@,
                address,
                ttl,
                proxied,
            },
            Effect::Update { zone_id, record_id, name, address, ttl, proxied } => {
                EffectSpec::Update {
                    zone_id: zone_id@,
                    record_id: record_id@,
                    name: name@,
                    address,
                    ttl,
                    proxied,
                }
            },
        }
    }
}

impl DeepView for Effect {
    type V = EffectSpec;

    open spec fn deep_view(&self) -> EffectSpec {
        self@
    }
}

/// What a pass finds for one host.
#[derive(Clone, Debug, PartialEq, Eq)]
pub enum Decision {
    /// No record of that name exists.
    Create,
    /// The record `record_id` holds another address, `from`.
    Update { record_id: String, from: Ipv4 },
    /// The record holds the resolved address already.
    Unchanged,
}

/// The mathematical value of a [`Decision`].
pub enum DecisionSpec {
    Create,
    Update { record_id: Seq<char>, from: Ipv4 },
    Unchanged,
}

impl View for Decision {
    type V = DecisionSpec;

    open spec fn view(&self) -> DecisionSpec {
        match *self {
            Decision::Create => DecisionSpec::Create,
            Decision::Update { record_id, from } => DecisionSpec::Update {
                record_id: record_id@,
                from,
            },
            Decision::Unchanged => DecisionSpec::Unchanged,
        }
    }
}

/// The decision for the host named `fqdn`: the record is looked up by the
/// exact name, and its address compared with the resolved one.
pub open spec fn decision_for(
    fqdn: Seq<char>,
    cache: Map<Seq<char>, RecordSpec>,
    ip: Ipv4,
) -> DecisionSpec {
    if !cache.contains_key(fqdn) {
        DecisionSpec::Create
    } else if cache[fqdn].address != ip {
        DecisionSpec::Update { record_id: cache[fqdn].id, from: cache[fqdn].address }
    } else {
        DecisionSpec::Unchanged
    }
}

/// The calls that a decision asks for: one, or none where nothing changes.
pub open spec fn effects_of(host: HostSpec, decision: DecisionSpec, ip: Ipv4) -> Seq<EffectSpec> {
    match decision {
        DecisionSpec::Create => seq![
            EffectSpec::Create {
                zone_id: host.zone_id,
                name: host.fqdn,
                address: ip,
                ttl: TTL_AUTOMATIC,
                proxied: false,
            },
        ],
        DecisionSpec::Update { record_id, from } => seq![
            EffectSpec::Update {
                zone_id: host.zone_id,
                record_id,
                name: host.fqdn,
                address: ip,
                ttl: TTL_AUTOMATIC,
                proxied: false,
            },
        ],
        DecisionSpec::Unchanged => Seq::empty(),
    }
}

/// The log line that reports a decision.
pub open spec fn line_of(host: HostSpec, decision: DecisionSpec, ip: Ipv4) -> Seq<char> {
    match decision {
        DecisionSpec::Create => "Creating A record for "@ + host.fqdn + " ("@ + ip.text() + ")"@,
        DecisionSpec::Update { record_id, from } => "Updating A record for "@ + host.fqdn + ": "@
            + from.text() + " -> "@ + ip.text(),
        DecisionSpec::Unchanged => "Unchanged "@ + host.fqdn + " ("@ + ip.text() + ")"@,
    }
}

/// The log line that opens a pass.
pub open spec fn current_ip_line(ip: Ipv4) -> Seq<char> {
    "Current IP address: "@ + ip.text()
}

/// The calls of a whole pass: those of each host, in the order of the hosts.
pub open spec fn planned_effects(
    hosts: Seq<HostSpec>,
    cache: Map<Seq<char>, RecordSpec>,
    ip: Ipv4,
) -> Seq<EffectSpec>
    decreases hosts.len(),
{
    if hosts.len() == 0 {
        Seq::empty()
    } else {
        planned_effects(hosts.drop_last(), cache, ip) + effects_of(
            hosts.last(),
            decision_for(hosts.last().fqdn, cache, ip),
            ip,
        )
    }
}

/// The log of a whole pass: the opening line, then one line for each host.
pub open spec fn planned_lines(
    hosts: Seq<HostSpec>,
    cache: Map<Seq<char>, RecordSpec>,
    ip: Ipv4,
) -> Seq<Seq<char>> {
    seq![current_ip_line(ip)] + Seq::new(
        hosts.len(),
        |i: int| line_of(hosts[i], decision_for(hosts[i].fqdn, cache, ip), ip),
    )
}

/// Whether a pass changes anything: some host is created or updated.
pub open spec fn is_notable(
    hosts: Seq<HostSpec>,
    cache: Map<Seq<char>, RecordSpec>,
    ip: Ipv4,
) -> bool {
    exists|i: int|
        0 <= i < hosts.len() && #[trigger] decision_for(hosts[i].fqdn, cache, ip)
            != DecisionSpec::Unchanged
}

/// What a pass has decided: the calls to make, in order, and its log.
#[derive(Debug)]
pub struct Plan {
    pub effects: Vec<Effect>,
    pub log: MuxWriter,
}

/// Decides what to do for one host.
pub fn decide(host: &DesiredHost, cache: &RecordCache, ip: Ipv4) -> (decision: Decision)
    ensures
        decision@ == decision_for(host@.fqdn, cache@, ip),
{
    match cache.get(&host.fqdn) {
        None => Decision::Create,
        Some(record) => {
            if record.address != ip {
                Decision::Update { record_id: record.id.clone(), from: record.address }
            } else {
                Decision::Unchanged
            }
        },
    }
}

/// The call that carries out `decision` for `host`, if it asks for one.
pub fn effect_for(host: &DesiredHost, decision: &Decision, ip: Ipv4) -> (effect: Option<Effect>)
    ensures
        match effect {
            Some(e) => effects_of(host@, decision@, ip) == seq![e@],
            None => effects_of(host@, decision@, ip) == Seq::<EffectSpec>::empty(),
        },
{
    match decision {
        Decision::Create => Some(
            Effect::Create {
                zone_id: host.zone_id.clone(),
                name: host.fqdn.clone(),
                address: ip,
                ttl: TTL_AUTOMATIC,
                proxied: false,
            },
        ),
        Decision::Update { record_id, from } => Some(
            Effect::Update {
                zone_id: host.zone_id.clone(),
                record_id: record_id.clone(),
                name: host.fqdn.clone(),
                address: ip,
                ttl: TTL_AUTOMATIC,
                proxied: false,
            },
        ),
        Decision::Unchanged => None,
    }
}

/// Writes the log line that reports `decision` for `host`.
pub fn describe(host: &DesiredHost, decision: &Decision, ip: Ipv4) -> (line: String)
    ensures
        line@ == line_of(host@, decision@, ip),
{
    let mut line = String::new();
    match decision {
        Decision::Create => {
            line.append("Creating A record for ");
            line.append(host.fqdn.as_str());
            line.append(" (");
            line.append(ip.to_text().as_str());
            line.append(")");
        },
        Decision::Update { record_id, from } => {
            line.append("Updating A record for ");
            line.append(host.fqdn.as_str());
            line.append(": ");
            line.append(from.to_text().as_str());
            line.append(" -> ");
            line.append(ip.to_text().as_str());
        },
        Decision::Unchanged => {
            line.append("Unchanged ");
            line.append(host.fqdn.as_str());
            line.append(" (");
            line.append(ip.to_text().as_str());
            line.append(")");
        },
    }
    line
}

/// Writes the log line that opens a pass.
pub fn describe_current_ip(ip: Ipv4) -> (line: String)
    ensures
        line@ == current_ip_line(ip),
{
    let mut line = String::new();
    line.append("Current IP address: ");
    line.append(ip.to_text().as_str());
    line
}

/// Plans a pass: compares every desired host with the provider's records and
/// lists the calls that make them agree with the resolved address, with the
/// log that reports them. The log is notable exactly if there is a call.
pub fn reconcile(hosts: &Vec<DesiredHost>, cache: &RecordCache, ip: Ipv4) -> (plan: Plan)
    ensures
        plan.effects.deep_view() == planned_effects(hosts.deep_view(), cache@, ip),
        plan.log.lines() == planned_lines(hosts.deep_view(), cache@, ip),
        plan.log.should_notify == is_notable(hosts.deep_view(), cache@, ip),
{
    let mut effects: Vec<Effect> = Vec::new();
    let mut log = MuxWriter::new();
    log.write(describe_current_ip(ip));
    let mut i: usize = 0;
    while i < hosts.len()
        invariant
            i <= hosts.len(),
            effects.deep_view() == planned_effects(hosts.deep_view().take(i as int), cache@, ip),
            log.lines() == planned_lines(hosts.deep_view().take(i as int), cache@, ip),
            log.should_notify == is_notable(hosts.deep_view().take(i as int), cache@, ip),
        decreases hosts.len() - i,
    {
        let ghost done = hosts.deep_view().take(i as int);
        let ghost more = hosts.deep_view().take(i + 1);
        let ghost before = effects.deep_view();
        proof {
            assert(more.drop_last() == done);
        }
        let decision = decide(&hosts[i], cache, ip);
        match effect_for(&hosts[i], &decision, ip) {
            Some(effect) => {
                log.mark();
                effects.push(effect);
                proof {
                    assert(effects.deep_view() == before + seq![effect@]);
                    assert(decision_for(more[i as int].fqdn, cache@, ip)
                        != DecisionSpec::Unchanged);
                }
            },
            None => {
                proof {
                    assert(effects.deep_view() == before + Seq::<EffectSpec>::empty());
                }
            },
        }
        log.write(describe(&hosts[i], &decision, ip));
        i += 1;
    }
    proof {
        assert(hosts.deep_view().take(hosts.len() as int) == hosts.deep_view());
    }
    Plan { effects, log }
}

} // verus!
