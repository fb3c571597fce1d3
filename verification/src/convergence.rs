//! What holds of every plan that the reconciler makes.

use crate::hosts::HostSpec;
use crate::ipv4::Ipv4;
use crate::reconcile::{
    decision_for, is_notable, planned_effects, planned_lines, DecisionSpec, EffectSpec,
};
use crate::records::RecordSpec;
use vstd::prelude::*;

verus! {

/// The name of the record that an effect writes.
pub open spec fn written_name(effect: EffectSpec) -> Seq<char> {
    match effect {
        EffectSpec::Create { name, .. } => name,
        EffectSpec::Update { name, .. } => name,
    }
}

/// The address that an effect writes.
pub open spec fn written_address(effect: EffectSpec) -> Ipv4 {
    match effect {
        EffectSpec::Create { address, .. } => address,
        EffectSpec::Update { address, .. } => address,
    }
}

/// The provider's records, by name, after it has carried out `effect`. A
/// created record gets the id `new_id`; an updated one keeps its own.
pub open spec fn carried_out(
    cache: Map<Seq<char>, RecordSpec>,
    effect: EffectSpec,
    new_id: Seq<char>,
) -> Map<Seq<char>, RecordSpec> {
    match effect {
        EffectSpec::Create { name, address, .. } => cache.insert(
            name,
            RecordSpec { id: new_id, name, address },
        ),
        EffectSpec::Update { record_id, name, address, .. } => cache.insert(
            name,
            RecordSpec { id: record_id, name, address },
        ),
    }
}

/// The provider's records after it has carried out all of `effects`, in
/// order; `new_ids[i]` is the id it gives to a record that `effects[i]`
/// creates.
pub open spec fn carried_out_all(
    cache: Map<Seq<char>, RecordSpec>,
    effects: Seq<EffectSpec>,
    new_ids: Seq<Seq<char>>,
) -> Map<Seq<char>, RecordSpec>
    decreases effects.len(),
{
    if effects.len() == 0 {
        cache
    } else {
        carried_out(
            carried_out_all(cache, effects.drop_last(), new_ids),
            effects.last(),
            new_ids[effects.len() - 1],
        )
    }
}

/// The calls for a list of hosts are those for its first part, then those
/// for the rest.
pub proof fn lemma_planned_effects_concat(
    front: Seq<HostSpec>,
    back: Seq<HostSpec>,
    cache: Map<Seq<char>, RecordSpec>,
    ip: Ipv4,
)
    ensures
        planned_effects(front + back, cache, ip) == planned_effects(front, cache, ip)
            + planned_effects(back, cache, ip),
    decreases back.len(),
{
    if back.len() > 0 {
        lemma_planned_effects_concat(front, back.drop_last(), cache, ip);
        assert((front + back).drop_last() == front + back.drop_last());
    }
}

/// A host that has no record gets exactly one call: a create that carries
/// the resolved address, the automatic time to live, and no proxying.
pub proof fn lemma_missing_record_is_created(
    host: HostSpec,
    cache: Map<Seq<char>, RecordSpec>,
    ip: Ipv4,
)
    requires
        !cache.contains_key(host.fqdn),
    ensures
        planned_effects(seq![host], cache, ip) == seq![
            EffectSpec::Create {
                zone_id: host.zone_id,
                name: host.fqdn,
                address: ip,
                ttl: 1,
                proxied: false,
            },
        ],
{
    reveal_with_fuel(planned_effects, 2);
}

/// A host whose record holds another address gets exactly one call: an
/// update of that very record to the resolved address, and no create.
pub proof fn lemma_stale_record_is_updated(
    host: HostSpec,
    cache: Map<Seq<char>, RecordSpec>,
    ip: Ipv4,
)
    requires
        cache.contains_key(host.fqdn),
        cache[host.fqdn].address != ip,
    ensures
        planned_effects(seq![host], cache, ip) == seq![
            EffectSpec::Update {
                zone_id: host.zone_id,
                record_id: cache[host.fqdn].id,
                name: host.fqdn,
                address: ip,
                ttl: 1,
                proxied: false,
            },
        ],
{
    reveal_with_fuel(planned_effects, 2);
}

/// A host whose record holds the resolved address gets no call.
pub proof fn lemma_current_record_is_left(
    host: HostSpec,
    cache: Map<Seq<char>, RecordSpec>,
    ip: Ipv4,
)
    requires
        cache.contains_key(host.fqdn),
        cache[host.fqdn].address == ip,
    ensures
        planned_effects(seq![host], cache, ip) == Seq::<EffectSpec>::empty(),
{
    reveal_with_fuel(planned_effects, 2);
}

/// A pass is notable exactly if it makes at least one call.
pub proof fn lemma_notable_iff_effects(
    hosts: Seq<HostSpec>,
    cache: Map<Seq<char>, RecordSpec>,
    ip: Ipv4,
)
    ensures
        is_notable(hosts, cache, ip) <==> planned_effects(hosts, cache, ip).len() > 0,
    decreases hosts.len(),
{
    if hosts.len() > 0 {
        let rest = hosts.drop_last();
        lemma_notable_iff_effects(rest, cache, ip);
        let last = decision_for(hosts.last().fqdn, cache, ip);
        if last != DecisionSpec::Unchanged {
            assert(decision_for(hosts[hosts.len() - 1].fqdn, cache, ip)
                != DecisionSpec::Unchanged);
        }
        if is_notable(hosts, cache, ip) {
            let k = choose|k: int|
                0 <= k < hosts.len() && #[trigger] decision_for(hosts[k].fqdn, cache, ip)
                    != DecisionSpec::Unchanged;
            if k < rest.len() {
                assert(rest[k] == hosts[k]);
            }
        }
    }
}

/// A pass that finds every host unchanged makes no call and is not notable,
/// although it logs a line for every host.
pub proof fn lemma_unchanged_pass_is_quiet(
    hosts: Seq<HostSpec>,
    cache: Map<Seq<char>, RecordSpec>,
    ip: Ipv4,
)
    requires
        forall|i: int|
            0 <= i < hosts.len() ==> #[trigger] decision_for(hosts[i].fqdn, cache, ip)
                == DecisionSpec::Unchanged,
    ensures
        !is_notable(hosts, cache, ip),
        planned_effects(hosts, cache, ip).len() == 0,
        planned_lines(hosts, cache, ip).len() == hosts.len() + 1,
{
    lemma_notable_iff_effects(hosts, cache, ip);
}

/// A pass that creates or updates a single host is notable, whatever it
/// finds for the others.
pub proof fn lemma_one_change_is_notable(
    hosts: Seq<HostSpec>,
    cache: Map<Seq<char>, RecordSpec>,
    ip: Ipv4,
    i: int,
)
    requires
        0 <= i < hosts.len(),
        decision_for(hosts[i].fqdn, cache, ip) != DecisionSpec::Unchanged,
    ensures
        is_notable(hosts, cache, ip),
        planned_effects(hosts, cache, ip).len() > 0,
{
    lemma_notable_iff_effects(hosts, cache, ip);
}

/// Every planned call writes the resolved address, and every host that is
/// not unchanged has a call that writes its name.
proof fn lemma_plan_covers_hosts(hosts: Seq<HostSpec>, cache: Map<Seq<char>, RecordSpec>, ip: Ipv4)
    ensures
        forall|k: int|
            0 <= k < planned_effects(hosts, cache, ip).len() ==> written_address(
                #[trigger] planned_effects(hosts, cache, ip)[k],
            ) == ip,
        forall|i: int|
            0 <= i < hosts.len() && decision_for(#[trigger] hosts[i].fqdn, cache, ip)
                != DecisionSpec::Unchanged ==> exists|k: int|
                0 <= k < planned_effects(hosts, cache, ip).len() && written_name(
                    #[trigger] planned_effects(hosts, cache, ip)[k],
                ) == hosts[i].fqdn,
    decreases hosts.len(),
{
    if hosts.len() > 0 {
        let rest = hosts.drop_last();
        lemma_plan_covers_hosts(rest, cache, ip);
        let before = planned_effects(rest, cache, ip);
        let all = planned_effects(hosts, cache, ip);
        assert forall|k: int| 0 <= k < all.len() implies written_address(#[trigger] all[k])
            == ip by {}
        assert forall|i: int|
            0 <= i < hosts.len() && decision_for(#[trigger] hosts[i].fqdn, cache, ip)
                != DecisionSpec::Unchanged implies exists|k: int|
            0 <= k < all.len() && written_name(#[trigger] all[k]) == hosts[i].fqdn by {
            if i < rest.len() {
                let k = choose|k: int|
                    0 <= k < before.len() && written_name(#[trigger] before[k]) == rest[i].fqdn;
                assert(all[k] == before[k]);
            } else {
                let k = before.len() as int;
                assert(written_name(all[k]) == hosts[i].fqdn);
            }
        }
    }
}

/// After calls that all write `ip`, a name that one of them writes holds
/// `ip`, and every other name holds what it held before.
proof fn lemma_carried_out_all(
    cache: Map<Seq<char>, RecordSpec>,
    effects: Seq<EffectSpec>,
    new_ids: Seq<Seq<char>>,
    ip: Ipv4,
    name: Seq<char>,
)
    requires
        forall|k: int| 0 <= k < effects.len() ==> written_address(#[trigger] effects[k]) == ip,
    ensures
        (exists|k: int| 0 <= k < effects.len() && written_name(#[trigger] effects[k]) == name)
            ==> carried_out_all(cache, effects, new_ids).contains_key(name) && carried_out_all(
            cache,
            effects,
            new_ids,
        )[name].address == ip,
        !(exists|k: int| 0 <= k < effects.len() && written_name(#[trigger] effects[k]) == name)
            ==> (carried_out_all(cache, effects, new_ids).contains_key(name)
            <==> cache.contains_key(name)) && (cache.contains_key(name) ==> carried_out_all(
            cache,
            effects,
            new_ids,
        )[name] == cache[name]),
    decreases effects.len(),
{
    if effects.len() > 0 {
        let rest = effects.drop_last();
        assert forall|k: int| 0 <= k < rest.len() implies written_address(#[trigger] rest[k])
            == ip by {}
        lemma_carried_out_all(cache, rest, new_ids, ip, name);
        let last = effects.last();
        if exists|k: int| 0 <= k < effects.len() && written_name(#[trigger] effects[k]) == name {
            let k = choose|k: int|
                0 <= k < effects.len() && written_name(#[trigger] effects[k]) == name;
            if written_name(last) != name {
                assert(rest[k] == effects[k]);
            }
        }
    }
}

/// Reconciling is idempotent: once the provider has carried out the calls of
/// a pass, a second pass with the same address finds every host unchanged,
/// makes no call and is not notable. This holds where the provider keeps one
/// address record for each name, whatever ids it gives to created records.
pub proof fn lemma_second_pass_is_idle(
    hosts: Seq<HostSpec>,
    cache: Map<Seq<char>, RecordSpec>,
    ip: Ipv4,
    new_ids: Seq<Seq<char>>,
)
    ensures
        ({
            let after = carried_out_all(cache, planned_effects(hosts, cache, ip), new_ids);
            &&& forall|i: int|
                0 <= i < hosts.len() ==> #[trigger] decision_for(hosts[i].fqdn, after, ip)
                    == DecisionSpec::Unchanged
            &&& planned_effects(hosts, after, ip) == Seq::<EffectSpec>::empty()
            &&& !is_notable(hosts, after, ip)
        }),
{
    let effects = planned_effects(hosts, cache, ip);
    let after = carried_out_all(cache, effects, new_ids);
    lemma_plan_covers_hosts(hosts, cache, ip);
    assert forall|i: int| 0 <= i < hosts.len() implies #[trigger] decision_for(
        hosts[i].fqdn,
        after,
        ip,
    ) == DecisionSpec::Unchanged by {
        lemma_carried_out_all(cache, effects, new_ids, ip, hosts[i].fqdn);
    }
    lemma_unchanged_pass_is_quiet(hosts, after, ip);
}

/// A pass over records that already hold the resolved address for every
/// host makes no call and is not notable.
pub proof fn lemma_converged_pass_is_idle(
    hosts: Seq<HostSpec>,
    cache: Map<Seq<char>, RecordSpec>,
    ip: Ipv4,
)
    requires
        forall|i: int|
            0 <= i < hosts.len() ==> cache.contains_key(#[trigger] hosts[i].fqdn)
                && cache[hosts[i].fqdn].address == ip,
    ensures
        planned_effects(hosts, cache, ip) == Seq::<EffectSpec>::empty(),
        !is_notable(hosts, cache, ip),
{
    assert forall|i: int| 0 <= i < hosts.len() implies #[trigger] decision_for(
        hosts[i].fqdn,
        cache,
        ip,
    ) == DecisionSpec::Unchanged by {}
    lemma_unchanged_pass_is_quiet(hosts, cache, ip);
}

} // verus!
