//! The counting stage: from a basket, as it was handed over, to the number of
//! times each product code occurs in it.
//!
//! A count mapping is keyed by the code point of the product's character.

use crate::market::Supermarket;
use std::collections::HashMap;
use vstd::prelude::*;
use vstd::std_specs::iter::IteratorSpec;

verus! {

/// How often `product` occurs in `items`. Only this number of a basket is
/// ever read by a rule, so the order of the basket plays no part.
pub open spec fn occurrences(items: Seq<char>, product: char) -> nat {
    items.to_multiset().count(product)
}

/// The count that a count mapping gives for `product`: zero where the mapping
/// has no entry for it.
pub open spec fn count_of(counts: Map<u32, usize>, product: char) -> nat {
    if counts.contains_key(product as u32) {
        counts[product as u32] as nat
    } else {
        0
    }
}

/// The count mapping of a basket: an entry for the code of each product that
/// occurs in it, which holds the number of its occurrences, and no other
/// entry.
pub open spec fn tally(items: Seq<char>) -> Map<u32, usize> {
    Map::new(
        |code: u32| (code as char) as u32 == code && items.contains(code as char),
        |code: u32| occurrences(items, code as char) as usize,
    )
}

/// A product occurs at most as often as the basket is long.
pub proof fn lemma_occurrences_bounded(items: Seq<char>, product: char)
    ensures
        occurrences(items, product) <= items.len(),
    decreases items.len(),
{
    broadcast use vstd::seq_lib::group_to_multiset_ensures;

    if items.len() > 0 {
        let front = items.drop_last();
        lemma_occurrences_bounded(front, product);
        assert(items =~= front.push(items.last()));
    }
}

/// Each further item raises the count of its own product by one and leaves
/// the other counts as they were.
pub proof fn lemma_occurrences_push(items: Seq<char>, next: char, product: char)
    ensures
        occurrences(items.push(next), product) == occurrences(items, product) + if next
            == product {
            1nat
        } else {
            0nat
        },
{
    broadcast use vstd::seq_lib::group_to_multiset_ensures;

}

/// What a count mapping gives for any product of the basket it was made
/// from: the number of its occurrences there.
pub proof fn lemma_tally_counts(items: Seq<char>, product: char)
    requires
        items.len() <= usize::MAX,
    ensures
        count_of(tally(items), product) == occurrences(items, product),
{
    broadcast use vstd::seq_lib::group_to_multiset_ensures;

    lemma_occurrences_bounded(items, product);
    assert((product as u32) as char == product);
}

/// The count mapping of a basket with one more item, from that of the basket.
pub proof fn lemma_tally_push(items: Seq<char>, next: char)
    requires
        items.len() < usize::MAX,
    ensures
        count_of(tally(items), next) == occurrences(items, next),
        tally(items.push(next)) == tally(items).insert(
            next as u32,
            (occurrences(items, next) + 1) as usize,
        ),
{
    broadcast use vstd::seq_lib::group_to_multiset_ensures;

    let longer = items.push(next);
    let expected = tally(items).insert(next as u32, (occurrences(items, next) + 1) as usize);
    lemma_tally_counts(items, next);
    assert((next as u32) as char == next);
    assert forall|code: u32| #[trigger]
        tally(longer).dom().contains(code) == expected.dom().contains(code) by {
        lemma_occurrences_push(items, next, code as char);
    }
    assert forall|code: u32| #[trigger] expected.dom().contains(code) implies tally(longer)[code]
        == expected[code] by {
        lemma_occurrences_push(items, next, code as char);
        lemma_occurrences_bounded(items, code as char);
    }
    assert(tally(longer) =~= expected);
}

impl Supermarket {
    /// Counts the items of a basket by product code. Every character counts,
    /// a blank or a code that no rule names like any other.
    pub fn count_characters(items: String) -> (counts: HashMap<u32, usize>)
        ensures
            counts@ == tally(items@),
            forall|product: char| count_of(counts@, product) == occurrences(items@, product),
    {
        broadcast use vstd::std_specs::hash::group_hash_axioms;

        // The length of the basket bounds every count.
        let length: usize = items.as_str().unicode_len();
        let mut counts: HashMap<u32, usize> = HashMap::new();
        let ghost mut seen: Seq<char> = Seq::empty();
        let mut rest = items.as_str().chars();
        assert(counts@ =~= tally(seen));
        loop
            invariant
                seen + rest.remaining() == items@,
                items@.len() == length,
                counts@ == tally(seen),
                rest.decrease() is Some,
            ensures
                seen == items@,
            decreases rest.decrease()->0,
        {
            match rest.next() {
                Some(c) => {
                    proof {
                        lemma_tally_push(seen, c);
                    }
                    let code: u32 = c as u32;
                    let so_far: usize = match counts.get(&code) {
                        Some(count) => *count,
                        None => 0,
                    };
                    proof {
                        lemma_occurrences_bounded(seen, c);
                    }
                    counts.insert(code, so_far + 1);
                    proof {
                        assert(seen.push(c) + rest.remaining() =~= items@);
                        seen = seen.push(c);
                    }
                },
                None => {
                    assert(seen =~= items@);
                    break ;
                },
            }
        }
        assert forall|product: char| count_of(counts@, product) == occurrences(
            items@,
            product,
        ) by {
            lemma_tally_counts(items@, product);
        }
        counts
    }
}

} // verus!
