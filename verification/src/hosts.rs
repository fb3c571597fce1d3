//! The hostnames to keep pointed at the current address.

use vstd::prelude::*;

verus! {

/// A hostname under management, with the provider's id of its zone.
#[derive(Clone, Debug, PartialEq, Eq)]
pub struct DesiredHost {
    pub fqdn: String,
    pub zone_id: String,
}

/// The mathematical value of a [`DesiredHost`].
pub struct HostSpec {
    pub fqdn: Seq<char>,
    pub zone_id: Seq<char>,
}

impl View for DesiredHost {
    type V = HostSpec;

    open spec fn view(&self) -> HostSpec {
        HostSpec { fqdn: self.fqdn@, zone_id: self.zone_id@ }
    }
}

impl DeepView for DesiredHost {
    type V = HostSpec;

    open spec fn deep_view(&self) -> HostSpec {
        self@
    }
}

/// The zone ids of the hosts, each once, in the order in which they first
/// occur.
pub open spec fn distinct_zones(hosts: Seq<HostSpec>) -> Seq<Seq<char>>
    decreases hosts.len(),
{
    if hosts.len() == 0 {
        Seq::empty()
    } else {
        let before = distinct_zones(hosts.drop_last());
        if before.contains(hosts.last().zone_id) {
            before
        } else {
            before.push(hosts.last().zone_id)
        }
    }
}

/// Every host's zone is among the distinct zones, and none of them occurs
/// twice there.
pub proof fn lemma_distinct_zones(hosts: Seq<HostSpec>)
    ensures
        forall|i: int|
            0 <= i < hosts.len() ==> distinct_zones(hosts).contains(#[trigger] hosts[i].zone_id),
        forall|z: Seq<char>|
            distinct_zones(hosts).contains(z) ==> exists|i: int|
                0 <= i < hosts.len() && #[trigger] hosts[i].zone_id == z,
        distinct_zones(hosts).no_duplicates(),
    decreases hosts.len(),
{
    if hosts.len() > 0 {
        let rest = hosts.drop_last();
        lemma_distinct_zones(rest);
        let before = distinct_zones(rest);
        let after = distinct_zones(hosts);
        let zone = hosts.last().zone_id;
        assert forall|i: int| 0 <= i < hosts.len() implies after.contains(
            #[trigger] hosts[i].zone_id,
        ) by {
            if i < rest.len() {
                assert(rest[i] == hosts[i]);
                let k = choose|k: int| 0 <= k < before.len() && before[k] == hosts[i].zone_id;
                assert(after[k] == hosts[i].zone_id);
            } else if !before.contains(zone) {
                assert(after[before.len() as int] == zone);
            }
        }
        assert forall|z: Seq<char>| after.contains(z) implies exists|i: int|
            0 <= i < hosts.len() && #[trigger] hosts[i].zone_id == z by {
            let k = choose|k: int| 0 <= k < after.len() && after[k] == z;
            if k < before.len() {
                assert(before.contains(z));
            }
        }
    }
}

/// Whether `zone` is among `zones`.
fn holds_zone(zones: &Vec<String>, zone: &String) -> (found: bool)
    ensures
        found == zones.deep_view().contains(zone@),
{
    let mut i: usize = 0;
    while i < zones.len()
        invariant
            i <= zones.len(),
            forall|k: int| 0 <= k < i ==> zones.deep_view()[k] != zone@,
        decreases zones.len() - i,
    {
        if zones[i] == *zone {
            assert(zones.deep_view()[i as int] == zone@);
            return true;
        }
        i += 1;
    }
    false
}

/// The zones whose records a pass has to fetch: one fetch for each zone,
/// however many hosts lie in it.
pub fn zones_to_fetch(hosts: &Vec<DesiredHost>) -> (zones: Vec<String>)
    ensures
        zones.deep_view() == distinct_zones(hosts.deep_view()),
{
    let mut zones: Vec<String> = Vec::new();
    let mut i: usize = 0;
    while i < hosts.len()
        invariant
            i <= hosts.len(),
            zones.deep_view() == distinct_zones(hosts.deep_view().take(i as int)),
        decreases hosts.len() - i,
    {
        proof {
            assert(hosts.deep_view().take(i + 1).drop_last() == hosts.deep_view().take(i as int));
        }
        if !holds_zone(&zones, &hosts[i].zone_id) {
            zones.push(hosts[i].zone_id.clone());
        }
        i += 1;
    }
    proof {
        assert(hosts.deep_view().take(hosts.len() as int) == hosts.deep_view());
    }
    zones
}

} // verus!
