//! Setting up a run: the list of hostnames, the provider's zones, and the
//! desired hosts that come of the two.

use crate::hostname::{is_hostname, split_hostname, zone_of};
use crate::hosts::{DesiredHost, HostSpec};
use crate::text::{split_on, split_str};
use vstd::prelude::*;

verus! {

/// Whether a line of the hostname list counts: every line but an empty one.
pub open spec fn is_entry() -> spec_fn(Seq<char>) -> bool {
    |line: Seq<char>| line.len() > 0
}

/// The hostnames that a list holds: its lines, without the empty ones.
pub open spec fn listed_names(data: Seq<char>) -> Seq<Seq<char>> {
    split_on(data, '\n').filter(is_entry())
}

/// Reads the list of hostnames: one on each line, empty lines passed over.
pub fn parse_domain_list(data: &str) -> (names: Vec<String>)
    ensures
        names.deep_view() == listed_names(data@),
{
    let lines = split_str(data, '\n');
    let mut names: Vec<String> = Vec::new();
    let mut i: usize = 0;
    while i < lines.len()
        invariant
            i <= lines.len(),
            names.deep_view() == lines.deep_view().take(i as int).filter(is_entry()),
        decreases lines.len() - i,
    {
        proof {
            reveal(Seq::filter);
            assert(lines.deep_view().take(i + 1).drop_last() == lines.deep_view().take(i as int));
        }
        if !lines[i].as_str().is_empty() {
            names.push(lines[i].clone());
        }
        i += 1;
    }
    proof {
        assert(lines.deep_view().take(lines.len() as int) == lines.deep_view());
    }
    names
}

/// A zone as the provider lists it.
#[derive(Clone, Debug, PartialEq, Eq)]
pub struct Zone {
    pub name: String,
    pub id: String,
}

/// The table that a listing of zones stands for, from name to id: a later
/// zone replaces an earlier one of the same name.
pub open spec fn zone_table(listing: Seq<(Seq<char>, Seq<char>)>) -> Map<Seq<char>, Seq<char>>
    decreases listing.len(),
{
    if listing.len() == 0 {
        Map::empty()
    } else {
        zone_table(listing.drop_last()).insert(listing.last().0, listing.last().1)
    }
}

/// A listing of zones as pairs of name and id.
pub open spec fn listing_of(zones: Seq<Zone>) -> Seq<(Seq<char>, Seq<char>)> {
    zones.map_values(|zone: Zone| (zone.name@, zone.id@))
}

/// The provider's zones, found by name.
#[derive(Debug)]
pub struct ZoneMap {
    zones: Vec<Zone>,
}

impl View for ZoneMap {
    type V = Map<Seq<char>, Seq<char>>;

    closed spec fn view(&self) -> Map<Seq<char>, Seq<char>> {
        zone_table(listing_of(self.zones@))
    }
}

impl ZoneMap {
    /// A map without zones.
    pub fn new() -> (map: ZoneMap)
        ensures
            map@ == Map::<Seq<char>, Seq<char>>::empty(),
    {
        ZoneMap { zones: Vec::new() }
    }

    /// The map of the zones that the provider listed.
    pub fn from_listing(zones: Vec<Zone>) -> (map: ZoneMap)
        ensures
            map@ == zone_table(listing_of(zones@)),
    {
        ZoneMap { zones }
    }

    /// Files the id of a zone under the zone's name, in place of any id
    /// that was there.
    pub fn insert(&mut self, name: String, id: String)
        ensures
            final(self)@ == old(self)@.insert(name@, id@),
    {
        let ghost before = listing_of(self.zones@);
        self.zones.push(Zone { name, id });
        proof {
            assert(listing_of(self.zones@).drop_last() == before);
        }
    }

    /// The id of the zone called `name`, if the provider has such a zone.
    pub fn resolve(&self, name: &String) -> (id: Option<String>)
        ensures
            id is Some <==> self@.contains_key(name@),
            id matches Some(found) ==> found@ == self@[name@],
    {
        let ghost listing = listing_of(self.zones@);
        let mut i: usize = self.zones.len();
        proof {
            assert(listing.take(i as int) == listing);
        }
        while i > 0
            invariant
                i <= self.zones.len(),
                listing == listing_of(self.zones@),
                self@.contains_key(name@) <==> zone_table(listing.take(i as int)).contains_key(
                    name@,
                ),
                self@.contains_key(name@) ==> self@[name@] == zone_table(
                    listing.take(i as int),
                )[name@],
            decreases i,
        {
            proof {
                assert(listing.take(i as int).drop_last() == listing.take(i - 1));
            }
            i -= 1;
            if self.zones[i].name == *name {
                return Some(self.zones[i].id.clone());
            }
        }
        None
    }
}

/// Why the desired hosts could not be set up. Either is a mistake in the
/// configuration, and no pass is run.
#[derive(Clone, Debug, PartialEq, Eq)]
pub enum SetupError {
    /// The name cannot be split into a hostname and its zone.
    InvalidHostname(String),
    /// The provider has no zone of this name.
    UnknownZone(String),
}

/// The mathematical value of a [`SetupError`].
pub enum SetupErrorSpec {
    InvalidHostname(Seq<char>),
    UnknownZone(Seq<char>),
}

impl View for SetupError {
    type V = SetupErrorSpec;

    open spec fn view(&self) -> SetupErrorSpec {
        match *self {
            SetupError::InvalidHostname(name) => SetupErrorSpec::InvalidHostname(name@),
            SetupError::UnknownZone(zone) => SetupErrorSpec::UnknownZone(zone@),
        }
    }
}

/// The text that reports a setup error.
pub open spec fn setup_message(error: SetupErrorSpec) -> Seq<char> {
    match error {
        SetupErrorSpec::InvalidHostname(name) => "invalid hostname: "@ + name,
        SetupErrorSpec::UnknownZone(zone) => "unknown zone: "@ + zone,
    }
}

impl SetupError {
    /// The text that reports the error.
    pub fn message(&self) -> (text: String)
        ensures
            text@ == setup_message(self@),
    {
        let mut text = String::new();
        match self {
            SetupError::InvalidHostname(name) => {
                text.append("invalid hostname: ");
                text.append(name.as_str());
            },
            SetupError::UnknownZone(zone) => {
                text.append("unknown zone: ");
                text.append(zone.as_str());
            },
        }
        text
    }
}

/// The desired host that a configured name stands for, or what is wrong
/// with the name.
pub open spec fn host_of(
    name: Seq<char>,
    zones: Map<Seq<char>, Seq<char>>,
) -> Result<HostSpec, SetupErrorSpec> {
    if !is_hostname(name) {
        Err(SetupErrorSpec::InvalidHostname(name))
    } else if !zones.contains_key(zone_of(name)) {
        Err(SetupErrorSpec::UnknownZone(zone_of(name)))
    } else {
        Ok(HostSpec { fqdn: name, zone_id: zones[zone_of(name)] })
    }
}

/// The desired hosts that the configured names stand for, in their order,
/// or what is wrong with the first name that has something wrong.
pub open spec fn hosts_of(
    names: Seq<Seq<char>>,
    zones: Map<Seq<char>, Seq<char>>,
) -> Result<Seq<HostSpec>, SetupErrorSpec>
    decreases names.len(),
{
    if names.len() == 0 {
        Ok(Seq::empty())
    } else {
        match hosts_of(names.drop_last(), zones) {
            Err(error) => Err(error),
            Ok(hosts) => match host_of(names.last(), zones) {
                Err(error) => Err(error),
                Ok(host) => Ok(hosts.push(host)),
            },
        }
    }
}

/// What is wrong with the first names is wrong with the whole list.
proof fn lemma_first_error_stays(
    names: Seq<Seq<char>>,
    zones: Map<Seq<char>, Seq<char>>,
    upto: int,
)
    requires
        0 <= upto <= names.len(),
        hosts_of(names.take(upto), zones) is Err,
    ensures
        hosts_of(names, zones) == hosts_of(names.take(upto), zones),
    decreases names.len(),
{
    if upto == names.len() {
        assert(names.take(upto) == names);
    } else {
        assert(names.drop_last().take(upto) == names.take(upto));
        lemma_first_error_stays(names.drop_last(), zones, upto);
    }
}

/// Sets up the desired host for one configured name.
pub fn desired_host(name: &String, zones: &ZoneMap) -> (host: Result<DesiredHost, SetupError>)
    ensures
        match host {
            Ok(h) => host_of(name@, zones@) == Ok::<HostSpec, SetupErrorSpec>(h@),
            Err(e) => host_of(name@, zones@) == Err::<HostSpec, SetupErrorSpec>(e@),
        },
{
    match split_hostname(name.as_str()) {
        None => Err(SetupError::InvalidHostname(name.clone())),
        Some((fqdn, zone)) => match zones.resolve(&zone) {
            None => Err(SetupError::UnknownZone(zone)),
            Some(zone_id) => Ok(DesiredHost { fqdn, zone_id }),
        },
    }
}

/// Sets up the desired hosts for the configured names. The first name that
/// is no hostname, or whose zone the provider does not have, fails the
/// whole setup.
pub fn desired_hosts(names: &Vec<String>, zones: &ZoneMap) -> (hosts: Result<
    Vec<DesiredHost>,
    SetupError,
>)
    ensures
        match hosts {
            Ok(h) => hosts_of(names.deep_view(), zones@) == Ok::<Seq<HostSpec>, SetupErrorSpec>(
                h.deep_view(),
            ),
            Err(e) => hosts_of(names.deep_view(), zones@) == Err::<Seq<HostSpec>, SetupErrorSpec>(
                e@,
            ),
        },
{
    let mut hosts: Vec<DesiredHost> = Vec::new();
    let mut i: usize = 0;
    proof {
        assert(hosts.deep_view() == Seq::<HostSpec>::empty());
    }
    while i < names.len()
        invariant
            i <= names.len(),
            hosts_of(names.deep_view().take(i as int), zones@) == Ok::<
                Seq<HostSpec>,
                SetupErrorSpec,
            >(hosts.deep_view()),
        decreases names.len() - i,
    {
        proof {
            assert(names.deep_view().take(i + 1).drop_last() == names.deep_view().take(i as int));
        }
        match desired_host(&names[i], zones) {
            Err(error) => {
                proof {
                    lemma_first_error_stays(names.deep_view(), zones@, i + 1);
                }
                return Err(error);
            },
            Ok(host) => {
                let ghost before = hosts.deep_view();
                hosts.push(host);
                assert(hosts.deep_view() == before.push(host@));
            },
        }
        i += 1;
    }
    proof {
        assert(names.deep_view().take(names.len() as int) == names.deep_view());
    }
    Ok(hosts)
}

} // verus!
