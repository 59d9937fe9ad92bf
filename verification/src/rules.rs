//! Pricing rules. A rule names one product and turns the number of its
//! occurrences in a basket into an amount; it reads nothing else of the
//! basket and nothing of any other rule.

use crate::arith::{reduce, wrap_i32};
use crate::counting::count_of;
use std::collections::HashMap;
use vstd::prelude::*;

verus! {

/// Why a rule could not be made.
#[derive(Debug, Clone, Copy, PartialEq, Eq, Structural)]
pub enum RuleError {
    /// A bundle has to hold at least one item.
    BundleSizeNotPositive,
}

/// The count that `character_counts` holds for `product`, zero where it holds
/// none.
pub fn count_for(character_counts: &HashMap<u32, usize>, product: char) -> (n: usize)
    ensures
        n == count_of(character_counts@, product),
{
    broadcast use vstd::std_specs::hash::group_hash_axioms;

    let code: u32 = product as u32;
    match character_counts.get(&code) {
        Some(count) => *count,
        None => 0,
    }
}

/// A flat price: every item of the product costs the same. The cost may be
/// negative, which makes the rule a discount.
#[derive(Debug, Clone, Copy)]
pub struct FlatPrice {
    pub product: char,
    pub cost: i32,
}

impl FlatPrice {
    /// What `n` items of the product cost.
    pub open spec fn amount(&self, n: nat) -> int {
        n * self.cost
    }

    /// The rule's share of the price of a basket with these counts, in 32
    /// bits.
    pub fn price(&self, character_counts: &HashMap<u32, usize>) -> (p: i32)
        ensures
            p == wrap_i32(self.amount(count_of(character_counts@, self.product))),
    {
        let n: usize = count_for(character_counts, self.product);
        assert(-0x8000_0000_0000_0000_0000_0000 <= n * self.cost
            <= 0x8000_0000_0000_0000_0000_0000) by (nonlinear_arith)
            requires
                0 <= n <= 0xffff_ffff_ffff_ffff,
                -0x8000_0000 <= self.cost <= 0x7fff_ffff,
        ;
        reduce((n as i128) * (self.cost as i128))
    }
}

/// A bundle price: a fixed number of items of the product go for one price
/// together, and the items left over, fewer than a bundle, each cost the price
/// of a lone item. The number of bundles is not capped.
#[derive(Debug, Clone, Copy)]
pub struct BundlePrice {
    product: char,
    lone_cost: i32,
    bundle_size: i32,
    bundle_cost: i32,
}

impl BundlePrice {
    /// The product that the rule prices.
    pub closed spec fn product(&self) -> char {
        self.product
    }

    /// The price of an item outside a bundle.
    pub closed spec fn lone_cost(&self) -> int {
        self.lone_cost as int
    }

    /// The number of items in a bundle.
    pub closed spec fn bundle_size(&self) -> int {
        self.bundle_size as int
    }

    /// The price of a whole bundle.
    pub closed spec fn bundle_cost(&self) -> int {
        self.bundle_cost as int
    }

    /// A bundle holds at least one item. Every rule that exists meets this.
    #[verifier::type_invariant]
    pub closed spec fn wf(&self) -> bool {
        self.bundle_size > 0
    }

    /// The rule that holds these four values.
    pub closed spec fn of(
        product: char,
        lone_cost: i32,
        bundle_size: i32,
        bundle_cost: i32,
    ) -> BundlePrice {
        BundlePrice { product, lone_cost, bundle_size, bundle_cost }
    }

    /// What the rule made of four values holds, and when it can be evaluated.
    pub proof fn lemma_of(product: char, lone_cost: i32, bundle_size: i32, bundle_cost: i32)
        ensures
            Self::of(product, lone_cost, bundle_size, bundle_cost).product() == product,
            Self::of(product, lone_cost, bundle_size, bundle_cost).lone_cost() == lone_cost,
            Self::of(product, lone_cost, bundle_size, bundle_cost).bundle_size() == bundle_size,
            Self::of(product, lone_cost, bundle_size, bundle_cost).bundle_cost() == bundle_cost,
            Self::of(product, lone_cost, bundle_size, bundle_cost).wf() <==> bundle_size > 0,
    {
    }

    /// The size of a rule that can be evaluated is positive.
    pub proof fn lemma_wf(&self)
        ensures
            self.wf() <==> self.bundle_size() > 0,
    {
    }

    /// Makes a bundle rule, unless the bundle would hold no item or fewer.
    pub fn new(product: char, lone_cost: i32, bundle_size: i32, bundle_cost: i32) -> (made: Result<
        BundlePrice,
        RuleError,
    >)
        ensures
            made == if bundle_size > 0 {
                Ok::<BundlePrice, RuleError>(
                    Self::of(product, lone_cost, bundle_size, bundle_cost),
                )
            } else {
                Err::<BundlePrice, RuleError>(RuleError::BundleSizeNotPositive)
            },
    {
        if bundle_size > 0 {
            Ok(BundlePrice { product, lone_cost, bundle_size, bundle_cost })
        } else {
            Err(RuleError::BundleSizeNotPositive)
        }
    }

    /// What `n` items of the product cost: as many whole bundles as `n` holds,
    /// and the rest one by one.
    pub open spec fn amount(&self, n: nat) -> int {
        (n as int / self.bundle_size()) * self.bundle_cost() + (n as int % self.bundle_size())
            * self.lone_cost()
    }

    /// The rule's share of the price of a basket with these counts, in 32
    /// bits.
    pub fn price(&self, character_counts: &HashMap<u32, usize>) -> (p: i32)
        ensures
            p == wrap_i32(self.amount(count_of(character_counts@, self.product()))),
    {
        proof {
            use_type_invariant(self);
        }
        let n: u64 = count_for(character_counts, self.product) as u64;
        let size: u64 = self.bundle_size as u64;
        let bundles: u64 = n / size;
        let leftovers: u64 = n % size;
        assert(-0x8000_0000_0000_0000_0000_0000 <= bundles * self.bundle_cost
            <= 0x8000_0000_0000_0000_0000_0000) by (nonlinear_arith)
            requires
                0 <= bundles <= 0xffff_ffff_ffff_ffff,
                -0x8000_0000 <= self.bundle_cost <= 0x7fff_ffff,
        ;
        assert(-0x8000_0000_0000_0000_0000_0000 <= leftovers * self.lone_cost
            <= 0x8000_0000_0000_0000_0000_0000) by (nonlinear_arith)
            requires
                0 <= leftovers <= 0xffff_ffff_ffff_ffff,
                -0x8000_0000 <= self.lone_cost <= 0x7fff_ffff,
        ;
        reduce(
            (bundles as i128) * (self.bundle_cost as i128) + (leftovers as i128) * (
            self.lone_cost as i128),
        )
    }
}

/// A pricing rule of either kind.
#[derive(Debug, Clone, Copy)]
pub enum PricingRule {
    Flat(FlatPrice),
    Bundle(BundlePrice),
}

impl PricingRule {
    /// Whether the rule can be evaluated. Every rule that exists can.
    pub open spec fn wf(&self) -> bool {
        match self {
            PricingRule::Flat(_) => true,
            PricingRule::Bundle(rule) => rule.wf(),
        }
    }

    /// The product that the rule prices.
    pub open spec fn product(&self) -> char {
        match self {
            PricingRule::Flat(rule) => rule.product,
            PricingRule::Bundle(rule) => rule.product(),
        }
    }

    /// What `n` items of the rule's product cost.
    pub open spec fn amount(&self, n: nat) -> int {
        match self {
            PricingRule::Flat(rule) => rule.amount(n),
            PricingRule::Bundle(rule) => rule.amount(n),
        }
    }

    /// The rule's share of the price of a basket with these counts, in 32
    /// bits.
    pub fn price(&self, character_counts: &HashMap<u32, usize>) -> (p: i32)
        ensures
            p == wrap_i32(self.amount(count_of(character_counts@, self.product()))),
    {
        match self {
            PricingRule::Flat(rule) => rule.price(character_counts),
            PricingRule::Bundle(rule) => rule.price(character_counts),
        }
    }
}

/// Whether every rule of `rules` can be evaluated.
pub open spec fn all_wf(rules: Seq<PricingRule>) -> bool {
    forall|i: int| 0 <= i < rules.len() ==> #[trigger] rules[i].wf()
}

} // verus!
