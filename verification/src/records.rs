//! The provider's address records, as one pass sees them.

use crate::ipv4::Ipv4;
use vstd::prelude::*;

verus! {

/// What a DNS record holds, as far as reconciliation cares: an IPv4 address,
/// or anything else.
#[derive(Clone, Copy, Debug, PartialEq, Eq, Structural)]
pub enum RecordContent {
    Address(Ipv4),
    Other,
}

/// A record as the provider lists it.
#[derive(Clone, Debug, PartialEq, Eq)]
pub struct FetchedRecord {
    pub id: String,
    pub name: String,
    pub content: RecordContent,
}

/// The mathematical value of a [`FetchedRecord`].
pub struct FetchedSpec {
    pub id: Seq<char>,
    pub name: Seq<char>,
    pub content: RecordContent,
}

impl View for FetchedRecord {
    type V = FetchedSpec;

    open spec fn view(&self) -> FetchedSpec {
        FetchedSpec { id: self.id@, name: self.name@, content: self.content }
    }
}

impl DeepView for FetchedRecord {
    type V = FetchedSpec;

    open spec fn deep_view(&self) -> FetchedSpec {
        self@
    }
}

/// An address record of the provider.
#[derive(Clone, Debug, PartialEq, Eq)]
pub struct RemoteRecord {
    pub id: String,
    pub name: String,
    pub address: Ipv4,
}

/// The mathematical value of a [`RemoteRecord`].
pub struct RecordSpec {
    pub id: Seq<char>,
    pub name: Seq<char>,
    pub address: Ipv4,
}

impl View for RemoteRecord {
    type V = RecordSpec;

    open spec fn view(&self) -> RecordSpec {
        RecordSpec { id: self.id@, name: self.name@, address: self.address }
    }
}

impl DeepView for RemoteRecord {
    type V = RecordSpec;

    open spec fn deep_view(&self) -> RecordSpec {
        self@
    }
}

/// The lookup table after the listed records have been taken in, in order:
/// each address record is filed under its name, where it replaces an earlier
/// record of that name; records of other types are passed over.
pub open spec fn absorbed(
    cache: Map<Seq<char>, RecordSpec>,
    fetched: Seq<FetchedSpec>,
) -> Map<Seq<char>, RecordSpec>
    decreases fetched.len(),
{
    if fetched.len() == 0 {
        cache
    } else {
        let before = absorbed(cache, fetched.drop_last());
        let last = fetched.last();
        match last.content {
            RecordContent::Address(address) => before.insert(
                last.name,
                RecordSpec { id: last.id, name: last.name, address },
            ),
            RecordContent::Other => before,
        }
    }
}

/// The table that a sequence of records stands for: a later record replaces
/// an earlier one of the same name.
spec fn table_of(records: Seq<RecordSpec>) -> Map<Seq<char>, RecordSpec>
    decreases records.len(),
{
    if records.len() == 0 {
        Map::empty()
    } else {
        table_of(records.drop_last()).insert(records.last().name, records.last())
    }
}

/// The address records of the zones fetched in a pass, found by name.
#[derive(Debug)]
pub struct RecordCache {
    records: Vec<RemoteRecord>,
}

impl View for RecordCache {
    type V = Map<Seq<char>, RecordSpec>;

    closed spec fn view(&self) -> Map<Seq<char>, RecordSpec> {
        table_of(self.records.deep_view())
    }
}

impl RecordCache {
    /// A cache without records.
    pub fn new() -> (cache: RecordCache)
        ensures
            cache@ == Map::<Seq<char>, RecordSpec>::empty(),
    {
        RecordCache { records: Vec::new() }
    }

    /// Files `record` under its name, in place of any record of that name.
    pub fn insert(&mut self, record: RemoteRecord)
        ensures
            final(self)@ == old(self)@.insert(record@.name, record@),
    {
        let ghost before = self.records.deep_view();
        self.records.push(record);
        proof {
            assert(self.records.deep_view().drop_last() == before);
        }
    }

    /// Takes in what the provider listed for one zone.
    pub fn absorb(&mut self, fetched: &Vec<FetchedRecord>)
        ensures
            final(self)@ == absorbed(old(self)@, fetched.deep_view()),
    {
        let mut i: usize = 0;
        while i < fetched.len()
            invariant
                i <= fetched.len(),
                self@ == absorbed(old(self)@, fetched.deep_view().take(i as int)),
            decreases fetched.len() - i,
        {
            proof {
                assert(fetched.deep_view().take(i + 1).drop_last() == fetched.deep_view().take(
                    i as int,
                ));
            }
            match fetched[i].content {
                RecordContent::Address(address) => {
                    self.insert(
                        RemoteRecord {
                            id: fetched[i].id.clone(),
                            name: fetched[i].name.clone(),
                            address,
                        },
                    );
                },
                RecordContent::Other => {},
            }
            i += 1;
        }
        proof {
            assert(fetched.deep_view().take(fetched.len() as int) == fetched.deep_view());
        }
    }

    /// The record filed under `name`, if there is one.
    pub fn get(&self, name: &String) -> (found: Option<&RemoteRecord>)
        ensures
            found is Some <==> self@.contains_key(name@),
            found matches Some(record) ==> record@ == self@[name@],
    {
        let mut i: usize = self.records.len();
        proof {
            assert(self.records.deep_view().take(i as int) == self.records.deep_view());
        }
        while i > 0
            invariant
                i <= self.records.len(),
                self@.contains_key(name@) <==> table_of(
                    self.records.deep_view().take(i as int),
                ).contains_key(name@),
                self@.contains_key(name@) ==> self@[name@] == table_of(
                    self.records.deep_view().take(i as int),
                )[name@],
            decreases i,
        {
            proof {
                assert(self.records.deep_view().take(i as int).drop_last()
                    == self.records.deep_view().take(i - 1));
            }
            i -= 1;
            if self.records[i].name == *name {
                return Some(&self.records[i]);
            }
        }
        None
    }
}

} // verus!
