//! Splitting and joining text, stated over sequences of characters.

use vstd::prelude::*;

verus! {

/// `String::push` appends the given character to the end of the string.
pub assume_specification[ String::push ](s: &mut String, ch: char)
    ensures
        final(s)@ == old(s)@.push(ch),
;

/// The pieces of `s` that lie between the occurrences of `sep`. There is
/// always at least one piece; a separator at either end, or two in a row,
/// leave an empty piece.
pub open spec fn split_on(s: Seq<char>, sep: char) -> Seq<Seq<char>>
    decreases s.len(),
{
    if s.len() == 0 {
        seq![Seq::<char>::empty()]
    } else {
        let before = split_on(s.drop_last(), sep);
        if s.last() == sep {
            before.push(Seq::<char>::empty())
        } else {
            before.drop_last().push(before.last().push(s.last()))
        }
    }
}

/// The parts written one after the other with `sep` between each two.
pub open spec fn join_with(parts: Seq<Seq<char>>, sep: Seq<char>) -> Seq<char>
    decreases parts.len(),
{
    if parts.len() == 0 {
        Seq::<char>::empty()
    } else if parts.len() == 1 {
        parts[0]
    } else {
        join_with(parts.drop_last(), sep) + sep + parts.last()
    }
}

/// Splitting yields at least one piece, and no piece holds the separator.
pub proof fn lemma_split_pieces(s: Seq<char>, sep: char)
    ensures
        split_on(s, sep).len() >= 1,
        forall|i: int|
            0 <= i < split_on(s, sep).len() ==> !(#[trigger] split_on(s, sep)[i]).contains(sep),
    decreases s.len(),
{
    if s.len() > 0 {
        lemma_split_pieces(s.drop_last(), sep);
        let before = split_on(s.drop_last(), sep);
        if s.last() != sep {
            let grown = before.last().push(s.last());
            assert forall|j: int| 0 <= j < grown.len() implies grown[j] != sep by {}
        }
    }
}

/// Joining the pieces of a split with the separator gives the text back.
pub proof fn lemma_join_split(s: Seq<char>, sep: char)
    ensures
        join_with(split_on(s, sep), seq![sep]) == s,
    decreases s.len(),
{
    if s.len() > 0 {
        lemma_join_split(s.drop_last(), sep);
        lemma_split_pieces(s.drop_last(), sep);
        let before = split_on(s.drop_last(), sep);
        let after = split_on(s, sep);
        if s.last() == sep {
            assert(after.drop_last() == before);
        } else if before.len() > 1 {
            assert(after.drop_last() == before.drop_last());
            assert(join_with(after, seq![sep]) == (join_with(before.drop_last(), seq![sep])
                + seq![sep] + before.last()).push(s.last()));
        }
    }
}

/// Splitting a text that was joined from separator-free parts gives the
/// parts back.
pub proof fn lemma_split_join(parts: Seq<Seq<char>>, sep: char)
    requires
        parts.len() >= 1,
        forall|i: int| 0 <= i < parts.len() ==> !(#[trigger] parts[i]).contains(sep),
    ensures
        split_on(join_with(parts, seq![sep]), sep) == parts,
    decreases join_with(parts, seq![sep]).len(),
{
    let joined = join_with(parts, seq![sep]);
    let tail = parts.last();
    if tail.len() == 0 {
        assert(tail =~= Seq::<char>::empty());
        if parts.len() > 1 {
            let rest = parts.drop_last();
            assert(joined.drop_last() == join_with(rest, seq![sep]));
            lemma_split_join(rest, sep);
        }
    } else {
        let c = tail.last();
        let shorter = parts.drop_last().push(tail.drop_last());
        assert forall|i: int| 0 <= i < shorter.len() implies !(#[trigger] shorter[i]).contains(
            sep,
        ) by {
            if i == parts.len() - 1 {
                assert forall|j: int| 0 <= j < tail.drop_last().len() implies tail.drop_last()[j]
                    != sep by {}
            }
        }
        if parts.len() > 1 {
            assert(shorter.drop_last() == parts.drop_last());
            assert(joined == (join_with(parts.drop_last(), seq![sep]) + seq![sep]
                + tail.drop_last()).push(c));
        }
        assert(joined.drop_last() == join_with(shorter, seq![sep]));
        lemma_split_join(shorter, sep);
        assert(shorter.last().push(c) == tail);
    }
}

/// Joining two runs of parts: the joined first run, the separator, the
/// joined second run.
pub proof fn lemma_join_concat(front: Seq<Seq<char>>, back: Seq<Seq<char>>, sep: Seq<char>)
    requires
        front.len() > 0,
        back.len() > 0,
    ensures
        join_with(front + back, sep) == join_with(front, sep) + sep + join_with(back, sep),
    decreases back.len(),
{
    let all = front + back;
    assert(all.drop_last() == front + back.drop_last());
    if back.len() > 1 {
        lemma_join_concat(front, back.drop_last(), sep);
        assert(join_with(all, sep) == (join_with(front, sep) + sep + join_with(
            back.drop_last(),
            sep,
        )) + sep + back.last());
        assert(join_with(all, sep) == join_with(front, sep) + sep + (join_with(
            back.drop_last(),
            sep,
        ) + sep + back.last()));
    }
}

/// Splits `s` at every occurrence of `sep`.
pub fn split_str(s: &str, sep: char) -> (parts: Vec<String>)
    ensures
        parts.deep_view() == split_on(s@, sep),
{
    let mut parts: Vec<String> = Vec::new();
    let mut piece = String::new();
    for c in it: s.chars()
        invariant
            it.seq() == s@,
            parts.deep_view().push(piece@) == split_on(s@.take(it.index() as int), sep),
    {
        proof {
            assert(s@.take(it.index() + 1).drop_last() == s@.take(it.index() as int));
        }
        if c == sep {
            parts.push(piece);
            piece = String::new();
        } else {
            piece.push(c);
        }
    }
    proof {
        assert(s@.take(s@.len() as int) == s@);
    }
    parts.push(piece);
    parts
}

/// Writes the strings one after the other with `sep` between each two.
pub fn join_strings(parts: &Vec<String>, sep: &str) -> (joined: String)
    ensures
        joined@ == join_with(parts.deep_view(), sep@),
{
    let mut joined = String::new();
    let mut i: usize = 0;
    while i < parts.len()
        invariant
            i <= parts.len(),
            joined@ == join_with(parts.deep_view().take(i as int), sep@),
        decreases parts.len() - i,
    {
        proof {
            assert(parts.deep_view().take(i + 1).drop_last() == parts.deep_view().take(i as int));
        }
        if i > 0 {
            joined.append(sep);
        }
        joined.append(parts[i].as_str());
        i += 1;
    }
    proof {
        assert(parts.deep_view().take(parts.len() as int) == parts.deep_view());
    }
    joined
}

} // verus!
