use cfddns::hosts::DesiredHost;
use cfddns::ipv4::Ipv4;
use cfddns::pass::{Action, Direction, Event, Pass, PassError};
use cfddns::reconcile::Effect;
use cfddns::records::{FetchedRecord, RecordContent};

fn desired(fqdn: &str, zone_id: &str) -> DesiredHost {
    DesiredHost { fqdn: fqdn.to_string(), zone_id: zone_id.to_string() }
}

fn listed(id: &str, name: &str, ip: Ipv4) -> FetchedRecord {
    FetchedRecord { id: id.to_string(), name: name.to_string(), content: RecordContent::Address(ip) }
}

fn creation(zone_id: &str, name: &str, ip: Ipv4) -> Action {
    Action::Apply(Effect::Create {
        zone_id: zone_id.to_string(),
        name: name.to_string(),
        address: ip,
        ttl: 1,
        proxied: false,
    })
}

fn change(zone_id: &str, record_id: &str, name: &str, ip: Ipv4) -> Action {
    Action::Apply(Effect::Update {
        zone_id: zone_id.to_string(),
        record_id: record_id.to_string(),
        name: name.to_string(),
        address: ip,
        ttl: 1,
        proxied: false,
    })
}

fn list(zone_id: &str) -> Action {
    Action::ListRecords { zone_id: zone_id.to_string(), direction: Direction::Ascending }
}

/// Drives a pass with a provider that fails the call numbered `failing`
/// (from 0), and tells which calls it was asked to make.
fn drive(
    hosts: Vec<DesiredHost>,
    body: &str,
    records: Vec<FetchedRecord>,
    failing: Option<usize>,
) -> (Pass, Vec<Effect>) {
    let mut pass = Pass::begin(hosts);
    let mut asked = Vec::new();
    loop {
        let event = match pass.pending() {
            Action::ResolveIp => Event::IpAnswered(body.to_string()),
            Action::ListRecords { zone_id, .. } => Event::RecordsListed(
                records.iter().filter(|r| r.id.starts_with(&zone_id)).cloned().collect(),
            ),
            Action::Apply(effect) => {
                asked.push(effect);
                if failing == Some(asked.len() - 1) {
                    Event::ProviderFailed("provider said no".to_string())
                } else {
                    Event::EffectApplied
                }
            }
            Action::Stop => break,
        };
        pass = pass.step(event);
    }
    (pass, asked)
}

#[test]
fn pass_begins_by_asking_for_the_address() {
    let pass = Pass::begin(vec![desired("api.example.com", "z1")]);
    assert_eq!(pass.pending(), Action::ResolveIp);
    assert!(!pass.is_over());
    assert_eq!(pass.applied(), 0);
    assert_eq!(pass.into_report(), None);
}

#[test]
fn two_missing_hosts_are_created_in_input_order() {
    let hosts = vec![desired("api.example.com", "z1"), desired("www.example.com", "z1")];
    let ip = Ipv4::new(203, 0, 113, 9);
    let mut pass = Pass::begin(hosts);
    pass = pass.step(Event::IpAnswered("203.0.113.9".to_string()));
    assert_eq!(pass.pending(), list("z1"));
    pass = pass.step(Event::RecordsListed(vec![]));
    assert_eq!(pass.pending(), creation("z1", "api.example.com", ip));
    pass = pass.step(Event::EffectApplied);
    assert_eq!(pass.pending(), creation("z1", "www.example.com", ip));
    assert_eq!(pass.applied(), 1);
    pass = pass.step(Event::EffectApplied);
    assert_eq!(pass.pending(), Action::Stop);
    assert!(pass.is_over());
    assert_eq!(pass.failure(), None);
    assert_eq!(pass.applied(), 2);
    assert_eq!(
        pass.into_report(),
        Some((
            "Current IP address: 203.0.113.9\n\
             Creating A record for api.example.com (203.0.113.9)\n\
             Creating A record for www.example.com (203.0.113.9)"
                .to_string(),
            true
        ))
    );
}

#[test]
fn answer_that_is_no_address_aborts_without_a_write() {
    let hosts = vec![desired("api.example.com", "z1"), desired("www.example.com", "z1")];
    let (pass, asked) = drive(hosts, "error", vec![], None);
    assert_eq!(asked, vec![]);
    assert!(pass.is_over());
    assert_eq!(pass.applied(), 0);
    assert_eq!(
        pass.failure(),
        Some(PassError::IpResolution("invalid IPv4 address syntax".to_string()))
    );
    assert_eq!(pass.into_report(), Some(("invalid IPv4 address syntax".to_string(), true)));
}

#[test]
fn bad_address_asks_for_nothing_more() {
    let mut pass = Pass::begin(vec![desired("api.example.com", "z1")]);
    pass = pass.step(Event::IpAnswered("error".to_string()));
    assert_eq!(pass.pending(), Action::Stop);
    pass = pass.step(Event::RecordsListed(vec![]));
    assert_eq!(pass.pending(), Action::Stop);
    pass = pass.step(Event::EffectApplied);
    assert_eq!(pass.pending(), Action::Stop);
    pass = pass.step(Event::IpAnswered("1.2.3.4".to_string()));
    assert_eq!(pass.pending(), Action::Stop);
    assert_eq!(pass.applied(), 0);
    assert_eq!(pass.into_report(), Some(("invalid IPv4 address syntax".to_string(), true)));
}

#[test]
fn unreachable_endpoint_aborts_with_its_message() {
    let mut pass = Pass::begin(vec![desired("api.example.com", "z1")]);
    pass = pass.step(Event::IpUnreachable("connection refused".to_string()));
    assert_eq!(pass.pending(), Action::Stop);
    assert_eq!(pass.applied(), 0);
    assert_eq!(pass.failure(), Some(PassError::IpResolution("connection refused".to_string())));
    assert_eq!(pass.into_report(), Some(("connection refused".to_string(), true)));
}

#[test]
fn second_of_three_updates_fails() {
    let old = Ipv4::new(1, 2, 3, 4);
    let ip = Ipv4::new(5, 6, 7, 8);
    let hosts = vec![
        desired("a.example.com", "z1"),
        desired("b.example.com", "z1"),
        desired("c.example.com", "z1"),
    ];
    let records = vec![
        listed("z1-a", "a.example.com", old),
        listed("z1-b", "b.example.com", old),
        listed("z1-c", "c.example.com", old),
    ];
    let (pass, asked) = drive(hosts, "5.6.7.8", records, Some(1));
    assert_eq!(
        asked,
        vec![
            Effect::Update {
                zone_id: "z1".to_string(),
                record_id: "z1-a".to_string(),
                name: "a.example.com".to_string(),
                address: ip,
                ttl: 1,
                proxied: false,
            },
            Effect::Update {
                zone_id: "z1".to_string(),
                record_id: "z1-b".to_string(),
                name: "b.example.com".to_string(),
                address: ip,
                ttl: 1,
                proxied: false,
            },
        ]
    );
    assert!(pass.is_over());
    assert_eq!(pass.applied(), 1);
    assert_eq!(pass.pending(), Action::Stop);
    assert_eq!(pass.failure(), Some(PassError::Provider("provider said no".to_string())));
    assert_eq!(pass.into_report(), Some(("provider said no".to_string(), true)));
}

#[test]
fn failed_pass_stays_failed() {
    let hosts = vec![desired("a.example.com", "z1"), desired("b.example.com", "z1")];
    let mut pass = Pass::begin(hosts);
    pass = pass.step(Event::IpAnswered("5.6.7.8".to_string()));
    pass = pass.step(Event::RecordsListed(vec![]));
    pass = pass.step(Event::ProviderFailed("boom".to_string()));
    assert_eq!(pass.pending(), Action::Stop);
    pass = pass.step(Event::EffectApplied);
    pass = pass.step(Event::EffectApplied);
    pass = pass.step(Event::ProviderFailed("later".to_string()));
    assert_eq!(pass.pending(), Action::Stop);
    assert_eq!(pass.applied(), 0);
    assert_eq!(pass.into_report(), Some(("boom".to_string(), true)));
}

#[test]
fn failed_listing_aborts_before_any_write() {
    let hosts = vec![desired("a.example.com", "z1"), desired("a.example.org", "z2")];
    let mut pass = Pass::begin(hosts);
    pass = pass.step(Event::IpAnswered("5.6.7.8".to_string()));
    assert_eq!(pass.pending(), list("z1"));
    pass = pass.step(Event::RecordsListed(vec![]));
    assert_eq!(pass.pending(), list("z2"));
    pass = pass.step(Event::ProviderFailed("listing failed".to_string()));
    assert_eq!(pass.pending(), Action::Stop);
    assert_eq!(pass.applied(), 0);
    assert_eq!(pass.failure(), Some(PassError::Provider("listing failed".to_string())));
    assert_eq!(pass.into_report(), Some(("listing failed".to_string(), true)));
}

#[test]
fn each_zone_is_listed_once() {
    let hosts = vec![
        desired("a.example.org", "z2"),
        desired("a.example.com", "z1"),
        desired("b.example.org", "z2"),
        desired("b.example.com", "z1"),
    ];
    let ip = Ipv4::new(5, 6, 7, 8);
    let mut pass = Pass::begin(hosts);
    pass = pass.step(Event::IpAnswered("5.6.7.8".to_string()));
    assert_eq!(pass.pending(), list("z2"));
    pass = pass.step(Event::RecordsListed(vec![
        listed("r1", "a.example.org", ip),
        listed("r2", "b.example.org", ip),
    ]));
    assert_eq!(pass.pending(), list("z1"));
    pass = pass.step(Event::RecordsListed(vec![
        listed("r3", "a.example.com", ip),
        listed("r4", "b.example.com", Ipv4::new(5, 6, 7, 9)),
    ]));
    assert_eq!(pass.pending(), change("z1", "r4", "b.example.com", ip));
    pass = pass.step(Event::EffectApplied);
    assert_eq!(pass.pending(), Action::Stop);
    assert_eq!(
        pass.into_report(),
        Some((
            "Current IP address: 5.6.7.8\n\
             Unchanged a.example.org (5.6.7.8)\n\
             Unchanged a.example.com (5.6.7.8)\n\
             Unchanged b.example.org (5.6.7.8)\n\
             Updating A record for b.example.com: 5.6.7.9 -> 5.6.7.8"
                .to_string(),
            true
        ))
    );
}

#[test]
fn unchanged_pass_succeeds_without_calls_and_is_not_notable() {
    let ip = Ipv4::new(5, 6, 7, 8);
    let hosts = vec![desired("a.example.com", "z1"), desired("b.example.com", "z1")];
    let records = vec![listed("z1-a", "a.example.com", ip), listed("z1-b", "b.example.com", ip)];
    let (pass, asked) = drive(hosts, "5.6.7.8", records, None);
    assert_eq!(asked, vec![]);
    assert_eq!(pass.applied(), 0);
    assert_eq!(
        pass.into_report(),
        Some((
            "Current IP address: 5.6.7.8\n\
             Unchanged a.example.com (5.6.7.8)\n\
             Unchanged b.example.com (5.6.7.8)"
                .to_string(),
            false
        ))
    );
}

#[test]
fn pass_without_hosts_only_resolves_the_address() {
    let mut pass = Pass::begin(vec![]);
    assert_eq!(pass.pending(), Action::ResolveIp);
    pass = pass.step(Event::IpAnswered("10.0.0.1".to_string()));
    assert_eq!(pass.pending(), Action::Stop);
    assert_eq!(pass.into_report(), Some(("Current IP address: 10.0.0.1".to_string(), false)));
}

#[test]
fn event_that_answers_nothing_is_passed_over() {
    let ip = Ipv4::new(5, 6, 7, 8);
    let mut pass = Pass::begin(vec![desired("a.example.com", "z1")]);
    pass = pass.step(Event::EffectApplied);
    pass = pass.step(Event::ProviderFailed("early".to_string()));
    pass = pass.step(Event::RecordsListed(vec![]));
    assert_eq!(pass.pending(), Action::ResolveIp);
    pass = pass.step(Event::IpAnswered("5.6.7.8".to_string()));
    pass = pass.step(Event::IpAnswered("9.9.9.9".to_string()));
    pass = pass.step(Event::IpUnreachable("late".to_string()));
    pass = pass.step(Event::EffectApplied);
    assert_eq!(pass.pending(), list("z1"));
    pass = pass.step(Event::RecordsListed(vec![]));
    pass = pass.step(Event::RecordsListed(vec![listed("r", "a.example.com", ip)]));
    pass = pass.step(Event::IpAnswered("9.9.9.9".to_string()));
    assert_eq!(pass.pending(), creation("z1", "a.example.com", ip));
    assert_eq!(pass.applied(), 0);
    pass = pass.step(Event::EffectApplied);
    pass = pass.step(Event::EffectApplied);
    assert_eq!(pass.applied(), 1);
    assert_eq!(
        pass.into_report(),
        Some((
            "Current IP address: 5.6.7.8\nCreating A record for a.example.com (5.6.7.8)"
                .to_string(),
            true
        ))
    );
}

#[test]
fn records_of_other_types_are_not_compared() {
    let ip = Ipv4::new(5, 6, 7, 8);
    let mut pass = Pass::begin(vec![desired("a.example.com", "z1")]);
    pass = pass.step(Event::IpAnswered("5.6.7.8".to_string()));
    pass = pass.step(Event::RecordsListed(vec![FetchedRecord {
        id: "txt".to_string(),
        name: "a.example.com".to_string(),
        content: RecordContent::Other,
    }]));
    assert_eq!(pass.pending(), creation("z1", "a.example.com", ip));
}

#[test]
fn third_of_three_creates_fails_after_two_stand() {
    let hosts = vec![
        desired("a.example.com", "z1"),
        desired("b.example.com", "z1"),
        desired("c.example.com", "z1"),
    ];
    let (pass, asked) = drive(hosts, "5.6.7.8", vec![], Some(2));
    assert_eq!(asked.len(), 3);
    assert_eq!(pass.applied(), 2);
    assert_eq!(pass.into_report(), Some(("provider said no".to_string(), true)));
}

#[test]
fn failure_message_is_what_was_reported() {
    assert_eq!(PassError::Provider("no".to_string()).message(), "no");
    assert_eq!(PassError::IpResolution("timeout".to_string()).message(), "timeout");
    assert_eq!(PassError::Provider(String::new()).message(), "");
}
