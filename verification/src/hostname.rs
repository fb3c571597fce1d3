//! Splitting a hostname into its full name and the zone it lies in.

use crate::text::{
    join_with, lemma_join_concat, lemma_join_split, lemma_split_join, lemma_split_pieces,
    split_on, split_str,
};
use vstd::prelude::*;

verus! {

/// The number of labels of a dotted name: its pieces between the dots, not
/// counting the empty piece that a dot at the very end leaves.
pub open spec fn label_count(name: Seq<char>) -> int {
    let pieces = split_on(name, '.');
    if pieces.last().len() == 0 {
        pieces.len() - 1
    } else {
        pieces.len() as int
    }
}

/// Whether `name` is a hostname that can be split: at least two labels, none
/// of them empty, with a dot between each two and at most one dot after the
/// last.
pub open spec fn is_hostname(name: Seq<char>) -> bool {
    &&& label_count(name) >= 2
    &&& forall|i: int| 0 <= i < label_count(name) ==> (#[trigger] split_on(name, '.')[i]).len() > 0
}

/// The zone of a hostname: its last two labels with the dot between them,
/// and the dot after them where the name ends in one.
pub open spec fn zone_of(name: Seq<char>) -> Seq<char> {
    let pieces = split_on(name, '.');
    join_with(pieces.skip(label_count(name) - 2), seq!['.'])
}

/// What stands before the zone in a hostname: the leading labels, each with
/// its dot.
pub open spec fn subdomain_of(name: Seq<char>) -> Seq<char> {
    let pieces = split_on(name, '.');
    let leading = pieces.take(label_count(name) - 2);
    if leading.len() == 0 {
        Seq::<char>::empty()
    } else {
        join_with(leading, seq!['.']) + seq!['.']
    }
}

/// A hostname is its subdomain part followed by its zone, and the zone
/// consists of exactly two labels of the name, its last two.
pub proof fn lemma_zone_ends_hostname(name: Seq<char>)
    requires
        is_hostname(name),
    ensures
        name == subdomain_of(name) + zone_of(name),
        label_count(zone_of(name)) == 2,
        split_on(zone_of(name), '.') == split_on(name, '.').skip(label_count(name) - 2),
{
    let pieces = split_on(name, '.');
    let cut = label_count(name) - 2;
    let leading = pieces.take(cut);
    let ending = pieces.skip(cut);
    lemma_join_split(name, '.');
    lemma_split_pieces(name, '.');
    assert(pieces == leading + ending);
    if leading.len() > 0 {
        lemma_join_concat(leading, ending, seq!['.']);
    }
    assert forall|i: int| 0 <= i < ending.len() implies !(#[trigger] ending[i]).contains('.') by {}
    lemma_split_join(ending, '.');
}

/// A name without a dot has a single label and is no hostname.
pub proof fn lemma_single_label_is_no_hostname(name: Seq<char>)
    requires
        !name.contains('.'),
    ensures
        split_on(name, '.') == seq![name],
        !is_hostname(name),
{
    lemma_split_join(seq![name], '.');
}

/// Splits a hostname into `(fqdn, zone)`: the name as it stands, and its
/// last two labels. Nothing is returned for a name with fewer than two
/// labels or with an empty label.
pub fn split_hostname(name: &str) -> (parts: Option<(String, String)>)
    ensures
        parts is Some <==> is_hostname(name@),
        parts matches Some((fqdn, zone)) ==> fqdn@ == name@ && zone@ == zone_of(name@),
{
    let pieces = split_str(name, '.');
    proof {
        lemma_split_pieces(name@, '.');
    }
    let total = pieces.len();
    let ends_in_dot = pieces[total - 1].as_str().is_empty();
    let count = if ends_in_dot {
        total - 1
    } else {
        total
    };
    if count < 2 {
        return None;
    }
    let mut i: usize = 0;
    while i < count
        invariant
            i <= count <= pieces.len(),
            count == label_count(name@),
            pieces.deep_view() == split_on(name@, '.'),
            forall|k: int| 0 <= k < i ==> (#[trigger] split_on(name@, '.')[k]).len() > 0,
        decreases count - i,
    {
        if pieces[i].as_str().is_empty() {
            assert(split_on(name@, '.')[i as int].len() == 0);
            return None;
        }
        i += 1;
    }
    let mut zone = String::new();
    zone.append(pieces[count - 2].as_str());
    zone.push('.');
    zone.append(pieces[count - 1].as_str());
    if ends_in_dot {
        zone.push('.');
    }
    proof {
        reveal_with_fuel(join_with, 4);
    }
    Some((name.to_owned(), zone))
}

} // verus!
