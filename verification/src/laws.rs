//! What holds of the price of every basket.

use crate::counting::occurrences;
use crate::market::{basket_total, standard_rules, Market, Supermarket};
use crate::rules::{all_wf, BundlePrice, PricingRule};
use vstd::prelude::*;

verus! {

/// A basket of `n` items of one product.
pub open spec fn copies(product: char, n: nat) -> Seq<char> {
    Seq::new(n, |i: int| product)
}

/// Whether some rule of `rules` names `product`.
pub open spec fn priced(rules: Seq<PricingRule>, product: char) -> bool {
    exists|i: int| 0 <= i < rules.len() && #[trigger] rules[i].product() == product
}

/// In a basket of `n` items of one product, that product occurs `n` times and
/// no other product occurs.
pub proof fn lemma_occurrences_in_copies(product: char, n: nat, other: char)
    ensures
        occurrences(copies(product, n), other) == if other == product {
            n
        } else {
            0
        },
    decreases n,
{
    broadcast use vstd::seq_lib::group_to_multiset_ensures;

    if n > 0 {
        lemma_occurrences_in_copies(product, (n - 1) as nat, other);
        assert(copies(product, n) =~= copies(product, (n - 1) as nat).push(product));
    } else {
        assert(!copies(product, n).contains(other));
    }
}

/// Two baskets in which every product that a rule names occurs equally often
/// have the same price, whatever else they hold.
pub proof fn lemma_total_by_counts(rules: Seq<PricingRule>, first: Seq<char>, second: Seq<char>)
    requires
        forall|i: int|
            0 <= i < rules.len() ==> occurrences(first, #[trigger] rules[i].product())
                == occurrences(second, rules[i].product()),
    ensures
        basket_total(rules, first) == basket_total(rules, second),
    decreases rules.len(),
{
    if rules.len() > 0 {
        let front = rules.drop_last();
        assert forall|i: int| 0 <= i < front.len() implies occurrences(
            first,
            #[trigger] front[i].product(),
        ) == occurrences(second, front[i].product()) by {
            assert(front[i] == rules[i]);
        }
        lemma_total_by_counts(front, first, second);
        assert(rules.last() == rules[rules.len() - 1]);
    }
}

/// Items that no rule names contribute nothing, however many they are: a
/// basket costs the same with them as without them.
pub proof fn lemma_unpriced_items_are_free(
    rules: Seq<PricingRule>,
    items: Seq<char>,
    extra: Seq<char>,
)
    requires
        forall|i: int| 0 <= i < extra.len() ==> !priced(rules, #[trigger] extra[i]),
    ensures
        basket_total(rules, items + extra) == basket_total(rules, items),
{
    broadcast use vstd::seq_lib::group_to_multiset_ensures;

    vstd::seq_lib::lemma_multiset_commutative(items, extra);
    assert forall|i: int| 0 <= i < rules.len() implies occurrences(
        items + extra,
        #[trigger] rules[i].product(),
    ) == occurrences(items, rules[i].product()) by {
        let product = rules[i].product();
        if extra.contains(product) {
            let j = choose|j: int| 0 <= j < extra.len() && extra[j] == product;
            assert(!priced(rules, extra[j]));
        }
    }
    lemma_total_by_counts(rules, items + extra, items);
}

/// The price of a basket does not depend on the order of its items: two
/// baskets that hold the same items, each as often as the other, cost the
/// same.
pub proof fn lemma_order_independent(
    rules: Seq<PricingRule>,
    first: Seq<char>,
    second: Seq<char>,
)
    requires
        first.to_multiset() == second.to_multiset(),
    ensures
        basket_total(rules, first) == basket_total(rules, second),
{
    lemma_total_by_counts(rules, first, second);
}

/// Rules add up: the price under two lists of rules joined is the sum of the
/// prices under each, so that rules which name the same product each charge
/// for it, and the order in which rules are held does not change the price.
pub proof fn lemma_rules_add_up(
    first: Seq<PricingRule>,
    second: Seq<PricingRule>,
    items: Seq<char>,
)
    ensures
        basket_total(first + second, items) == basket_total(first, items) + basket_total(
            second,
            items,
        ),
        basket_total(first + second, items) == basket_total(second + first, items),
    decreases first.len() + second.len(),
{
    if second.len() == 0 {
        assert(first + second =~= first);
        assert(second + first =~= first);
    } else if first.len() == 0 {
        assert(first + second =~= second);
        assert(second + first =~= second);
    } else {
        assert((first + second).drop_last() =~= first + second.drop_last());
        assert((first + second).last() == second.last());
        lemma_rules_add_up(first, second.drop_last(), items);
        assert((second + first).drop_last() =~= second + first.drop_last());
        assert((second + first).last() == first.last());
        lemma_rules_add_up(second, first.drop_last(), items);
    }
}

/// The empty basket costs nothing.
pub proof fn lemma_empty_basket(rules: Seq<PricingRule>)
    requires
        all_wf(rules),
    ensures
        basket_total(rules, Seq::<char>::empty()) == 0,
    decreases rules.len(),
{
    broadcast use vstd::seq_lib::group_to_multiset_ensures;

    if rules.len() > 0 {
        let front = rules.drop_last();
        assert forall|i: int| 0 <= i < front.len() implies #[trigger] front[i].wf() by {
            assert(front[i] == rules[i]);
        }
        lemma_empty_basket(front);
        let last = rules.last();
        assert(last == rules[rules.len() - 1]);
        assert(last.wf());
        assert(!Seq::<char>::empty().contains(last.product()));
        assert(occurrences(Seq::<char>::empty(), last.product()) == 0);
        match last {
            PricingRule::Flat(rule) => {},
            PricingRule::Bundle(rule) => {
                rule.lemma_wf();
                let size = rule.bundle_size();
                assert(0int / size == 0 && 0int % size == 0) by (nonlinear_arith)
                    requires
                        size > 0,
                ;
            },
        }
    }
}

/// The standard rules can be evaluated, and under them a basket costs 20 for
/// each A, 150 for each five of B and 50 for each B beyond them, and 30 for
/// each C. Nothing else in the basket has a price.
pub proof fn lemma_standard_total(market: Supermarket, items: Seq<char>)
    requires
        market.rules() == standard_rules(),
    ensures
        all_wf(market.rules()),
        market.total(items) == occurrences(items, 'A') * 20 + (occurrences(items, 'B') / 5) * 150
            + (occurrences(items, 'B') % 5) * 50 + occurrences(items, 'C') * 30,
{
    let rules = standard_rules();
    BundlePrice::lemma_of('B', 50, 5, 150);
    assert(rules.drop_last() =~= seq![rules[0], rules[1]]);
    assert(rules.drop_last().drop_last() =~= seq![rules[0]]);
    assert(rules.drop_last().drop_last().drop_last() =~= Seq::<PricingRule>::empty());
    reveal_with_fuel(basket_total, 4);
}

/// Under the standard rules, `n` items of A cost `n` times 20.
pub proof fn lemma_only_a(market: Supermarket, n: nat)
    requires
        market.rules() == standard_rules(),
    ensures
        market.total(copies('A', n)) == n * 20,
{
    lemma_standard_total(market, copies('A', n));
    lemma_occurrences_in_copies('A', n, 'A');
    lemma_occurrences_in_copies('A', n, 'B');
    lemma_occurrences_in_copies('A', n, 'C');
}

/// Under the standard rules, `n` items of C cost `n` times 30.
pub proof fn lemma_only_c(market: Supermarket, n: nat)
    requires
        market.rules() == standard_rules(),
    ensures
        market.total(copies('C', n)) == n * 30,
{
    lemma_standard_total(market, copies('C', n));
    lemma_occurrences_in_copies('C', n, 'A');
    lemma_occurrences_in_copies('C', n, 'B');
    lemma_occurrences_in_copies('C', n, 'C');
}

/// Under the standard rules, `n` items of B cost 150 for each whole five
/// among them and 50 for each of the rest.
pub proof fn lemma_only_b(market: Supermarket, n: nat)
    requires
        market.rules() == standard_rules(),
    ensures
        market.total(copies('B', n)) == (n / 5) * 150 + (n % 5) * 50,
{
    lemma_standard_total(market, copies('B', n));
    lemma_occurrences_in_copies('B', n, 'A');
    lemma_occurrences_in_copies('B', n, 'B');
    lemma_occurrences_in_copies('B', n, 'C');
}

} // verus!
