//! What holds of every run of a pass: when it stops, and what it has written
//! by then.

use crate::hosts::{distinct_zones, HostSpec};
use crate::ipv4::ipv4_of_text;
use crate::pass::{
    applied_calls, bad_address_message, next_state, pending_action, planned, ActionSpec,
    Direction, EventSpec, PassErrorSpec, PassSpec, PhaseSpec,
};
use crate::reconcile::EffectSpec;
use crate::records::{absorbed, FetchedSpec, RecordSpec};
use vstd::prelude::*;

verus! {

/// The state that a pass is in after the events, taken in order.
pub open spec fn run(state: PassSpec, events: Seq<EventSpec>) -> PassSpec
    decreases events.len(),
{
    if events.len() == 0 {
        state
    } else {
        next_state(run(state, events.drop_last()), events.last())
    }
}

/// `count` calls in a row that the provider carried out.
pub open spec fn successes(count: nat) -> Seq<EventSpec> {
    Seq::new(count, |i: int| EventSpec::EffectApplied)
}

/// Taking events in two runs is the same as taking them in one.
pub proof fn lemma_run_concat(state: PassSpec, first: Seq<EventSpec>, then: Seq<EventSpec>)
    ensures
        run(state, first + then) == run(run(state, first), then),
    decreases then.len(),
{
    if then.len() > 0 {
        lemma_run_concat(state, first, then.drop_last());
        assert((first + then).drop_last() == first + then.drop_last());
    }
}

/// The hosts of a pass stay the same throughout.
pub proof fn lemma_run_keeps_hosts(state: PassSpec, events: Seq<EventSpec>)
    ensures
        run(state, events).hosts == state.hosts,
    decreases events.len(),
{
    if events.len() > 0 {
        lemma_run_keeps_hosts(state, events.drop_last());
    }
}

/// A pass that is over stays as it is, whatever comes in, and asks for
/// nothing more.
pub proof fn lemma_over_is_final(state: PassSpec, events: Seq<EventSpec>)
    requires
        state.phase is Succeeded || state.phase is Failed,
    ensures
        run(state, events) == state,
        pending_action(run(state, events)) == ActionSpec::Stop,
    decreases events.len(),
{
    if events.len() > 0 {
        lemma_over_is_final(state, events.drop_last());
    }
}

/// A call is due only while the pass is applying its plan: none is due, and
/// none has been made, while the address is not known or the records are
/// not all listed.
pub proof fn lemma_calls_only_while_applying(state: PassSpec)
    ensures
        pending_action(state) is Apply <==> state.phase is Applying,
        state.phase is AwaitingIp ==> applied_calls(state.phase) == 0,
        state.phase is Fetching ==> applied_calls(state.phase) == 0,
{
}

/// A pass whose discovery endpoint answers with anything but an IPv4 address
/// fails at once as an address failure, with no call made, and no later
/// event makes it ask for one.
pub proof fn lemma_bad_address_aborts(
    hosts: Seq<HostSpec>,
    body: Seq<char>,
    later: Seq<EventSpec>,
)
    requires
        ipv4_of_text(body) is None,
    ensures
        ({
            let begun = PassSpec { hosts, phase: PhaseSpec::AwaitingIp };
            let end = run(next_state(begun, EventSpec::IpAnswered(body)), later);
            &&& end.phase == PhaseSpec::Failed {
                error: PassErrorSpec::IpResolution(bad_address_message()),
                applied: 0,
            }
            &&& pending_action(end) == ActionSpec::Stop
        }),
{
    let begun = PassSpec { hosts, phase: PhaseSpec::AwaitingIp };
    lemma_over_is_final(next_state(begun, EventSpec::IpAnswered(body)), later);
}

/// A pass whose discovery endpoint cannot be reached fails at once as an
/// address failure, with no call made, and no later event makes it ask for
/// one.
pub proof fn lemma_unreachable_endpoint_aborts(
    hosts: Seq<HostSpec>,
    message: Seq<char>,
    later: Seq<EventSpec>,
)
    ensures
        ({
            let begun = PassSpec { hosts, phase: PhaseSpec::AwaitingIp };
            let end = run(next_state(begun, EventSpec::IpUnreachable(message)), later);
            &&& end.phase == PhaseSpec::Failed {
                error: PassErrorSpec::IpResolution(message),
                applied: 0,
            }
            &&& pending_action(end) == ActionSpec::Stop
        }),
{
    let begun = PassSpec { hosts, phase: PhaseSpec::AwaitingIp };
    lemma_over_is_final(next_state(begun, EventSpec::IpUnreachable(message)), later);
}

/// The listings of zone after zone, as events.
pub open spec fn listings(records: Seq<Seq<FetchedSpec>>) -> Seq<EventSpec> {
    Seq::new(records.len(), |i: int| EventSpec::RecordsListed(records[i]))
}

/// The lookup table after the listings of zone after zone have been taken
/// in.
pub open spec fn absorbed_all(
    cache: Map<Seq<char>, RecordSpec>,
    records: Seq<Seq<FetchedSpec>>,
) -> Map<Seq<char>, RecordSpec>
    decreases records.len(),
{
    if records.len() == 0 {
        cache
    } else {
        absorbed(absorbed_all(cache, records.drop_last()), records.last())
    }
}

/// Once the address is known, the pass lists the zones of the hosts one by
/// one, each once, in the order in which they first occur.
pub proof fn lemma_zones_listed_in_order(
    hosts: Seq<HostSpec>,
    body: Seq<char>,
    records: Seq<Seq<FetchedSpec>>,
)
    requires
        ipv4_of_text(body) is Some,
        records.len() < distinct_zones(hosts).len(),
    ensures
        ({
            let begun = PassSpec { hosts, phase: PhaseSpec::AwaitingIp };
            let now = run(next_state(begun, EventSpec::IpAnswered(body)), listings(records));
            &&& now.phase == PhaseSpec::Fetching {
                ip: ipv4_of_text(body)->0,
                zones: distinct_zones(hosts),
                fetched: records.len(),
                cache: absorbed_all(Map::empty(), records),
            }
            &&& pending_action(now) == ActionSpec::ListRecords {
                zone_id: distinct_zones(hosts)[records.len() as int],
                direction: Direction::Ascending,
            }
        }),
    decreases records.len(),
{
    if records.len() > 0 {
        let begun = PassSpec { hosts, phase: PhaseSpec::AwaitingIp };
        let known = next_state(begun, EventSpec::IpAnswered(body));
        lemma_zones_listed_in_order(hosts, body, records.drop_last());
        lemma_run_keeps_hosts(known, listings(records.drop_last()));
        assert(listings(records).drop_last() == listings(records.drop_last()));
    }
}

/// Once the address is known and every zone is listed, the pass stands
/// where its plan puts it: it applies the calls planned over the listed
/// records, or is over where the plan holds none.
pub proof fn lemma_pass_follows_plan(
    hosts: Seq<HostSpec>,
    body: Seq<char>,
    records: Seq<Seq<FetchedSpec>>,
)
    requires
        ipv4_of_text(body) is Some,
        records.len() == distinct_zones(hosts).len(),
    ensures
        ({
            let begun = PassSpec { hosts, phase: PhaseSpec::AwaitingIp };
            run(next_state(begun, EventSpec::IpAnswered(body)), listings(records)).phase
                == planned(hosts, absorbed_all(Map::empty(), records), ipv4_of_text(body)->0)
        }),
{
    let begun = PassSpec { hosts, phase: PhaseSpec::AwaitingIp };
    let known = next_state(begun, EventSpec::IpAnswered(body));
    if records.len() > 0 {
        lemma_zones_listed_in_order(hosts, body, records.drop_last());
        assert(listings(records).drop_last() == listings(records.drop_last()));
        lemma_run_keeps_hosts(known, listings(records.drop_last()));
    }
}

/// While the provider carries out call after call, the pass asks for the
/// planned calls one by one, in their order.
pub proof fn lemma_calls_in_order(
    hosts: Seq<HostSpec>,
    effects: Seq<EffectSpec>,
    lines: Seq<Seq<char>>,
    notable: bool,
    count: nat,
)
    requires
        count < effects.len(),
    ensures
        ({
            let start = PassSpec {
                hosts,
                phase: PhaseSpec::Applying { effects, applied: 0, lines, notable },
            };
            let now = run(start, successes(count));
            &&& now.phase == PhaseSpec::Applying { effects, applied: count, lines, notable }
            &&& pending_action(now) == ActionSpec::Apply(effects[count as int])
        }),
    decreases count,
{
    if count > 0 {
        lemma_calls_in_order(hosts, effects, lines, notable, (count - 1) as nat);
        assert(successes(count).drop_last() == successes((count - 1) as nat));
    }
}

/// Once the provider has carried out every planned call, the pass has
/// succeeded with its log.
pub proof fn lemma_all_calls_succeed(
    hosts: Seq<HostSpec>,
    effects: Seq<EffectSpec>,
    lines: Seq<Seq<char>>,
    notable: bool,
)
    requires
        effects.len() > 0,
    ensures
        ({
            let start = PassSpec {
                hosts,
                phase: PhaseSpec::Applying { effects, applied: 0, lines, notable },
            };
            run(start, successes(effects.len())).phase == PhaseSpec::Succeeded {
                lines,
                notable,
                applied: effects.len(),
            }
        }),
{
    let count = (effects.len() - 1) as nat;
    lemma_calls_in_order(hosts, effects, lines, notable, count);
    assert(successes(effects.len()).drop_last() == successes(count));
}

/// No rollback and no going on: when the call after `count` successful ones
/// fails, the pass fails as a provider failure, the `count` calls stand as
/// applied, and no later event makes the pass ask for another call.
pub proof fn lemma_failed_call_aborts(
    hosts: Seq<HostSpec>,
    effects: Seq<EffectSpec>,
    lines: Seq<Seq<char>>,
    notable: bool,
    count: nat,
    message: Seq<char>,
    later: Seq<EventSpec>,
)
    requires
        count < effects.len(),
    ensures
        ({
            let start = PassSpec {
                hosts,
                phase: PhaseSpec::Applying { effects, applied: 0, lines, notable },
            };
            let end = run(
                start,
                successes(count) + seq![EventSpec::ProviderFailed(message)] + later,
            );
            &&& end.phase == PhaseSpec::Failed {
                error: PassErrorSpec::Provider(message),
                applied: count,
            }
            &&& pending_action(end) == ActionSpec::Stop
        }),
{
    let start = PassSpec {
        hosts,
        phase: PhaseSpec::Applying { effects, applied: 0, lines, notable },
    };
    let failure = seq![EventSpec::ProviderFailed(message)];
    lemma_calls_in_order(hosts, effects, lines, notable, count);
    lemma_run_concat(start, successes(count), failure);
    assert(run(run(start, successes(count)), failure) == next_state(
        run(start, successes(count)),
        EventSpec::ProviderFailed(message),
    )) by {
        reveal_with_fuel(run, 2);
    }
    lemma_run_concat(start, successes(count) + failure, later);
    lemma_over_is_final(run(start, successes(count) + failure), later);
}

} // verus!
