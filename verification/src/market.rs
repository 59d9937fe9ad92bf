//! The pricing engine: a fixed list of rules, and the checkout that sums what
//! each of them makes of a basket.

use crate::arith::{fits_i32, wrap_i32};
use crate::counting::{count_of, occurrences};
use crate::laws::lemma_empty_basket;
use crate::rules::{all_wf, BundlePrice, FlatPrice, PricingRule};
use vstd::pervasive::unreached;
use vstd::prelude::*;

verus! {

/// The price of a basket under a list of rules: the sum of what each rule
/// charges for the occurrences of its own product. Rules that name the same
/// product add up, and an item that no rule names adds nothing.
pub open spec fn basket_total(rules: Seq<PricingRule>, items: Seq<char>) -> int
    decreases rules.len(),
{
    if rules.len() == 0 {
        0
    } else {
        basket_total(rules.drop_last(), items) + rules.last().amount(
            occurrences(items, rules.last().product()),
        )
    }
}

/// The rules of the standard market: product A at 20 apiece, product B at 50
/// apiece or five for 150, product C at 30 apiece.
pub open spec fn standard_rules() -> Seq<PricingRule> {
    seq![
        PricingRule::Flat(FlatPrice { product: 'A', cost: 20 }),
        PricingRule::Bundle(BundlePrice::of('B', 50, 5, 150)),
        PricingRule::Flat(FlatPrice { product: 'C', cost: 30 }),
    ]
}

/// Something that prices a basket of items, each item one character.
pub trait Market {
    /// The price of a basket, as the integer that it is.
    spec fn total(&self, items: Seq<char>) -> int;

    /// The price of a basket in whole units of currency, in 32 bits. A total
    /// within the range of `i32` is returned as it is; one outside it comes
    /// back reduced by a multiple of 2^32, unguarded.
    fn checkout(&self, items: String) -> (price: i32)
        ensures
            price == wrap_i32(self.total(items@)),
            fits_i32(self.total(items@)) ==> price == self.total(items@),
    ;
}

/// A market with a list of pricing rules, fixed when it is made.
pub struct Supermarket {
    price_rules: Vec<PricingRule>,
}

impl Supermarket {
    /// The rules of the market, in the order in which they are evaluated.
    pub closed spec fn rules(&self) -> Seq<PricingRule> {
        self.price_rules@
    }

    /// The standard market.
    pub fn new() -> (market: Supermarket)
        ensures
            market.rules() == standard_rules(),
    {
        let a = PricingRule::Flat(FlatPrice { product: 'A', cost: 20 });
        let b = match BundlePrice::new('B', 50, 5, 150) {
            Ok(rule) => PricingRule::Bundle(rule),
            Err(_) => unreached(),
        };
        let c = PricingRule::Flat(FlatPrice { product: 'C', cost: 30 });
        let mut price_rules: Vec<PricingRule> = Vec::new();
        price_rules.push(a);
        price_rules.push(b);
        price_rules.push(c);
        assert(price_rules@ =~= standard_rules());
        Supermarket { price_rules }
    }

    /// A market with rules of the caller's choice: any number of them, of
    /// either kind, for any products.
    pub fn with_rules(rules: Vec<PricingRule>) -> (market: Supermarket)
        ensures
            market.rules() == rules@,
    {
        Supermarket { price_rules: rules }
    }
}

impl Market for Supermarket {
    open spec fn total(&self, items: Seq<char>) -> int {
        basket_total(self.rules(), items)
    }

    /// Sums the shares of the rules, in the order in which the market holds
    /// them. The empty basket costs nothing under any rules.
    fn checkout(&self, items: String) -> (price: i32)
        ensures
            items@.len() == 0 ==> price == 0,
    {
        let ghost basket = items@;
        let counts = Supermarket::count_characters(items);
        let mut sum: i32 = 0;
        let mut i: usize = 0;
        while i < self.price_rules.len()
            invariant
                i <= self.price_rules.len(),
                forall|product: char| count_of(counts@, product) == occurrences(basket, product),
                all_wf(self.price_rules@.take(i as int)),
                sum == wrap_i32(basket_total(self.price_rules@.take(i as int), basket)),
            decreases self.price_rules.len() - i,
        {
            let rule = &self.price_rules[i];
            proof {
                if let PricingRule::Bundle(bundle) = rule {
                    use_type_invariant(bundle);
                }
            }
            let share: i32 = rule.price(&counts);
            assert(self.price_rules@.take(i + 1).drop_last() =~= self.price_rules@.take(i as int));
            sum = sum.wrapping_add(share);
            i += 1;
        }
        assert(self.price_rules@.take(i as int) =~= self.price_rules@);
        proof {
            if basket.len() == 0 {
                assert(basket =~= Seq::<char>::empty());
                lemma_empty_basket(self.price_rules@);
            }
        }
        sum
    }
}

} // verus!
