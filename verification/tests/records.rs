use cfddns::ipv4::Ipv4;
use cfddns::records::{FetchedRecord, RecordCache, RecordContent, RemoteRecord};

fn address(id: &str, name: &str, ip: Ipv4) -> FetchedRecord {
    FetchedRecord { id: id.to_string(), name: name.to_string(), content: RecordContent::Address(ip) }
}

fn other(id: &str, name: &str) -> FetchedRecord {
    FetchedRecord { id: id.to_string(), name: name.to_string(), content: RecordContent::Other }
}

fn record(id: &str, name: &str, ip: Ipv4) -> RemoteRecord {
    RemoteRecord { id: id.to_string(), name: name.to_string(), address: ip }
}

#[test]
fn new_cache_holds_nothing() {
    let cache = RecordCache::new();
    assert_eq!(cache.get(&"home.example.com".to_string()), None);
    assert_eq!(cache.get(&"".to_string()), None);
}

#[test]
fn inserted_record_is_found_by_its_name() {
    let mut cache = RecordCache::new();
    cache.insert(record("r1", "home.example.com", Ipv4::new(1, 2, 3, 4)));
    assert_eq!(
        cache.get(&"home.example.com".to_string()),
        Some(&record("r1", "home.example.com", Ipv4::new(1, 2, 3, 4)))
    );
    assert_eq!(cache.get(&"r1".to_string()), None);
}

#[test]
fn lookup_is_by_exact_name() {
    let mut cache = RecordCache::new();
    cache.insert(record("r1", "home.example.com", Ipv4::new(1, 2, 3, 4)));
    assert_eq!(cache.get(&"home.example.co".to_string()), None);
    assert_eq!(cache.get(&"home.example.com.".to_string()), None);
    assert_eq!(cache.get(&"Home.example.com".to_string()), None);
    assert_eq!(cache.get(&"example.com".to_string()), None);
    assert_eq!(cache.get(&"ome.example.com".to_string()), None);
}

#[test]
fn later_record_of_the_same_name_wins() {
    let mut cache = RecordCache::new();
    cache.insert(record("r1", "a.example.com", Ipv4::new(1, 1, 1, 1)));
    cache.insert(record("r2", "b.example.com", Ipv4::new(2, 2, 2, 2)));
    cache.insert(record("r3", "a.example.com", Ipv4::new(3, 3, 3, 3)));
    assert_eq!(
        cache.get(&"a.example.com".to_string()),
        Some(&record("r3", "a.example.com", Ipv4::new(3, 3, 3, 3)))
    );
    assert_eq!(
        cache.get(&"b.example.com".to_string()),
        Some(&record("r2", "b.example.com", Ipv4::new(2, 2, 2, 2)))
    );
}

#[test]
fn absorb_takes_address_records_only() {
    let mut cache = RecordCache::new();
    cache.absorb(&vec![
        other("r0", "example.com"),
        address("r1", "a.example.com", Ipv4::new(1, 1, 1, 1)),
        other("r2", "b.example.com"),
        address("r3", "c.example.com", Ipv4::new(3, 3, 3, 3)),
    ]);
    assert_eq!(cache.get(&"example.com".to_string()), None);
    assert_eq!(cache.get(&"b.example.com".to_string()), None);
    assert_eq!(
        cache.get(&"a.example.com".to_string()),
        Some(&record("r1", "a.example.com", Ipv4::new(1, 1, 1, 1)))
    );
    assert_eq!(
        cache.get(&"c.example.com".to_string()),
        Some(&record("r3", "c.example.com", Ipv4::new(3, 3, 3, 3)))
    );
}

#[test]
fn record_of_another_type_does_not_hide_an_address_record() {
    let mut cache = RecordCache::new();
    cache.absorb(&vec![
        address("r1", "a.example.com", Ipv4::new(1, 1, 1, 1)),
        other("r2", "a.example.com"),
    ]);
    assert_eq!(
        cache.get(&"a.example.com".to_string()),
        Some(&record("r1", "a.example.com", Ipv4::new(1, 1, 1, 1)))
    );
}

#[test]
fn absorb_adds_zone_after_zone() {
    let mut cache = RecordCache::new();
    cache.absorb(&vec![address("r1", "a.example.com", Ipv4::new(1, 1, 1, 1))]);
    cache.absorb(&vec![]);
    cache.absorb(&vec![
        address("r2", "a.example.org", Ipv4::new(2, 2, 2, 2)),
        address("r3", "a.example.com", Ipv4::new(3, 3, 3, 3)),
    ]);
    assert_eq!(
        cache.get(&"a.example.org".to_string()),
        Some(&record("r2", "a.example.org", Ipv4::new(2, 2, 2, 2)))
    );
    assert_eq!(
        cache.get(&"a.example.com".to_string()),
        Some(&record("r3", "a.example.com", Ipv4::new(3, 3, 3, 3)))
    );
}
