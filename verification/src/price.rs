//! Money: a whole, non-negative amount of won.

use vstd::prelude::*;
use vstd::string::*;
use crate::decimal::{append_decimal, decimal_text};

verus! {

/// An amount of money in won. Its view is the amount as a natural number.
#[derive(Debug, Clone, Copy, PartialEq, Eq, Structural)]
pub struct Price(pub u32);

impl View for Price {
    type V = nat;

    open spec fn view(&self) -> nat {
        self.0 as nat
    }
}

/// The sum of a sequence of amounts; the empty sequence sums to zero.
pub open spec fn total(amounts: Seq<nat>) -> nat
    decreases amounts.len(),
{
    if amounts.len() == 0 {
        0
    } else {
        total(amounts.drop_last()) + amounts.last()
    }
}

/// The amounts of a sequence of prices, in the same order.
pub open spec fn amounts(prices: Seq<Price>) -> Seq<nat> {
    prices.map_values(|p: Price| p@)
}

/// How an amount is written: the won sign, then the amount in base ten.
pub open spec fn price_text(amount: nat) -> Seq<char> {
    "₩"@ + decimal_text(amount)
}

/// The sum of the first `k` amounts is at most the sum of all, and grows by
/// the next amount when one more is taken.
pub proof fn lemma_total_take(amounts: Seq<nat>, k: int)
    requires
        0 <= k <= amounts.len(),
    ensures
        total(amounts.take(k)) <= total(amounts),
        k < amounts.len() ==> total(amounts.take(k + 1)) == total(amounts.take(k)) + amounts[k],
    decreases amounts.len() - k,
{
    if k < amounts.len() {
        assert(amounts.take(k + 1).drop_last() =~= amounts.take(k));
        lemma_total_take(amounts, k + 1);
    } else {
        assert(amounts.take(k) =~= amounts);
    }
}

impl Price {
    /// The price of `amount` won.
    pub fn new(amount: u32) -> (result: Price)
        ensures
            result@ == amount,
    {
        Price(amount)
    }

    /// The amount in won.
    pub fn amount(&self) -> (result: u32)
        ensures
            result == self@,
    {
        self.0
    }

    /// The price as text, such as `₩2500`.
    pub fn format(&self) -> (result: String)
        ensures
            result@ == price_text(self@),
    {
        let mut out = String::from_str("₩");
        append_decimal(&mut out, self.0);
        out
    }

    /// The sum of two prices. The sum must fit the amount's 32 bits.
    pub fn add(self, other: Price) -> (result: Price)
        requires
            self@ + other@ <= u32::MAX,
        ensures
            result@ == self@ + other@,
    {
        Price(self.0 + other.0)
    }

    /// Adds `other` to this price in place. The sum must fit the amount's
    /// 32 bits.
    pub fn add_assign(&mut self, other: Price)
        requires
            old(self)@ + other@ <= u32::MAX,
        ensures
            final(self)@ == old(self)@ + other@,
    {
        self.0 = self.0 + other.0;
    }

    /// The price of `quantity` pieces. The product must fit the amount's
    /// 32 bits.
    pub fn mul(self, quantity: u32) -> (result: Price)
        requires
            self@ * quantity <= u32::MAX,
        ensures
            result@ == self@ * quantity,
    {
        Price(self.0 * quantity)
    }

    /// The sum of `prices`, folded from zero with `add`; zero for no prices.
    /// The sum must fit the amount's 32 bits.
    pub fn sum(prices: &[Price]) -> (result: Price)
        requires
            total(amounts(prices@)) <= u32::MAX,
        ensures
            result@ == total(amounts(prices@)),
            prices@.len() == 0 ==> result@ == 0,
    {
        let ghost all = amounts(prices@);
        let mut acc = Price::new(0);
        for i in 0..prices.len()
            invariant
                all == amounts(prices@),
                total(all) <= u32::MAX,
                acc@ == total(all.take(i as int)),
        {
            proof {
                lemma_total_take(all, i as int);
                lemma_total_take(all, i + 1);
            }
            acc = acc.add(prices[i]);
        }
        assert(all.take(prices.len() as int) =~= all);
        acc
    }
}

} // verus!
