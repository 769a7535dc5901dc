//! Order lines and orders: what a line costs, what an order costs, and how
//! an order is printed.

use vstd::prelude::*;
use vstd::seq_lib::{to_multiset_len, to_multiset_remove};
use vstd::string::*;
use crate::coffee::Coffee;
use crate::decimal::append_decimal;
use crate::price::{amounts, lemma_total_take, total, Price};
use crate::receipt::{
    entry_text, join_lines, lemma_read_receipt, no_line_feed, read_receipt, receipt_lines,
    receipt_text, separator, total_text, Entry, Receipt,
};

verus! {

/// What an order line says: a drink, and how many of it.
pub struct Line {
    pub coffee: Coffee,
    pub quantity: nat,
}

impl Line {
    /// What the line costs: the drink's price times the quantity.
    pub open spec fn line_total(self) -> nat {
        self.coffee.price_spec() * self.quantity
    }

    /// What the line says in print.
    pub open spec fn entry(self) -> Entry {
        Entry {
            name: self.coffee.name_spec(),
            quantity: self.quantity,
            line_total: self.line_total(),
        }
    }
}

/// What each of a sequence of lines costs, in the same order.
pub open spec fn line_totals(lines: Seq<Line>) -> Seq<nat> {
    lines.map_values(|line: Line| line.line_total())
}

/// What a sequence of lines says in print, in the same order.
pub open spec fn entries(lines: Seq<Line>) -> Seq<Entry> {
    lines.map_values(|line: Line| line.entry())
}

/// The message with which a quantity of zero is refused.
pub open spec fn invalid_quantity() -> Seq<char> {
    "Quantity must be greater than 0"@
}

/// One line of an order: a drink and a quantity, which is never zero.
#[derive(Debug)]
pub struct OrderItem {
    coffee: Coffee,
    quantity: u32,
}

impl View for OrderItem {
    type V = Line;

    closed spec fn view(&self) -> Line {
        Line { coffee: self.coffee, quantity: self.quantity as nat }
    }
}

impl Clone for OrderItem {
    /// A second item that says the same.
    fn clone(&self) -> (result: Self)
        ensures
            result@ == self@,
    {
        proof {
            use_type_invariant(self);
        }
        OrderItem { coffee: self.coffee, quantity: self.quantity }
    }
}

/// What a sequence of items says, in the same order.
pub open spec fn lines_of(items: Seq<OrderItem>) -> Seq<Line> {
    items.map_values(|item: OrderItem| item@)
}

impl OrderItem {
    /// What holds of every item: its quantity is positive.
    #[verifier::type_invariant]
    pub open spec fn valid(self) -> bool {
        self@.quantity > 0
    }

    /// An item of `quantity` pieces of `coffee`. A quantity of zero is
    /// refused, and nothing else is.
    pub fn new(coffee: Coffee, quantity: u32) -> (result: Result<OrderItem, String>)
        ensures
            quantity > 0 ==> result is Ok && result->Ok_0@ == (Line {
                coffee,
                quantity: quantity as nat,
            }),
            quantity > 0 ==> result->Ok_0@.line_total() == coffee.price_spec() * quantity,
            quantity == 0 ==> result is Err && result->Err_0@ == invalid_quantity(),
    {
        if quantity > 0 {
            Ok(OrderItem { coffee, quantity })
        } else {
            Err(String::from_str("Quantity must be greater than 0"))
        }
    }

    /// The drink of the item.
    pub fn coffee(&self) -> (result: Coffee)
        ensures
            result == self@.coffee,
    {
        self.coffee
    }

    /// The quantity of the item, which is positive.
    pub fn quantity(&self) -> (result: u32)
        ensures
            result == self@.quantity,
            result > 0,
    {
        proof {
            use_type_invariant(self);
        }
        self.quantity
    }

    /// What the item costs: the drink's price times the quantity. The
    /// product must fit the amount's 32 bits.
    pub fn line_total(&self) -> (result: Price)
        requires
            self@.line_total() <= u32::MAX,
        ensures
            result@ == self@.line_total(),
    {
        self.coffee.get_price().mul(self.quantity)
    }

    /// What the item costs, or `None` where that does not fit the amount's
    /// 32 bits.
    pub fn checked_line_total(&self) -> (result: Option<Price>)
        ensures
            match result {
                Some(price) => price@ == self@.line_total(),
                None => self@.line_total() > u32::MAX,
            },
    {
        match self.coffee.get_price().amount().checked_mul(self.quantity) {
            Some(amount) => Some(Price::new(amount)),
            None => None,
        }
    }

    /// The item as it is printed: name, ` x `, quantity, ` - `, line total.
    /// The line total must fit the amount's 32 bits.
    pub fn render(&self) -> (result: String)
        requires
            self@.line_total() <= u32::MAX,
        ensures
            result@ == entry_text(self@.entry()),
    {
        let mut out = self.coffee.get_name();
        out.append(" x ");
        append_decimal(&mut out, self.quantity);
        out.append(" - ");
        out.append(self.line_total().format().as_str());
        out
    }
}

/// An order: its items, in the order in which they were given.
#[derive(Debug)]
pub struct Order {
    items: Vec<OrderItem>,
}

impl View for Order {
    type V = Seq<Line>;

    closed spec fn view(&self) -> Seq<Line> {
        lines_of(self.items@)
    }
}

/// Each amount of a sequence is at most the sum of all.
proof fn lemma_total_covers(amounts: Seq<nat>, k: int)
    requires
        0 <= k < amounts.len(),
    ensures
        amounts[k] <= total(amounts),
{
    lemma_total_take(amounts, k);
    lemma_total_take(amounts, k + 1);
}

/// No name of the catalog holds a line feed.
proof fn lemma_name_no_line_feed(coffee: Coffee)
    ensures
        no_line_feed(coffee.name_spec()),
{
    reveal_strlit("Espresso");
    reveal_strlit("Cappuccino");
    reveal_strlit("Latte (");
    reveal_strlit(")");
    reveal_strlit("Small");
    reveal_strlit("Medium");
    reveal_strlit("Large");
}

impl Order {
    /// What the order costs: the sum of what its lines cost.
    pub open spec fn total_spec(&self) -> nat {
        total(line_totals(self@))
    }

    /// What the order says in print: its lines in order, and its total.
    pub open spec fn receipt(&self) -> Receipt {
        Receipt { entries: entries(self@), total: self.total_spec() }
    }

    /// The text of the printed order.
    pub open spec fn render_spec(&self) -> Seq<char> {
        receipt_text(self.receipt())
    }

    /// The order of the given items, in the given order. Any sequence of
    /// items is an order, the empty one too.
    pub fn new(items: Vec<OrderItem>) -> (result: Order)
        ensures
            result@ == lines_of(items@),
            items@.len() == 0 ==> result.total_spec() == 0,
    {
        Order { items }
    }

    /// The items of the order, in order.
    pub fn items(&self) -> (result: &Vec<OrderItem>)
        ensures
            lines_of(result@) == self@,
    {
        &self.items
    }

    /// What the order costs: the sum of its line totals, zero for an order
    /// without items. The sum must fit the amount's 32 bits.
    pub fn get_total(&self) -> (result: Price)
        requires
            self.total_spec() <= u32::MAX,
        ensures
            result@ == self.total_spec(),
    {
        let ghost costs = line_totals(self@);
        let mut prices: Vec<Price> = Vec::new();
        for i in 0..self.items.len()
            invariant
                costs == line_totals(self@),
                total(costs) <= u32::MAX,
                prices@.len() == i,
                amounts(prices@) == costs.take(i as int),
        {
            proof {
                lemma_total_covers(costs, i as int);
            }
            let ghost before = prices@;
            prices.push(self.items[i].line_total());
            proof {
                assert(amounts(prices@) =~= amounts(before).push(costs[i as int]));
                assert(costs.take(i + 1) =~= costs.take(i as int).push(costs[i as int]));
            }
        }
        assert(costs.take(self.items.len() as int) =~= costs);
        Price::sum(prices.as_slice())
    }

    /// What the order costs, or `None` where that does not fit the amount's
    /// 32 bits.
    pub fn checked_total(&self) -> (result: Option<Price>)
        ensures
            match result {
                Some(price) => price@ == self.total_spec(),
                None => self.total_spec() > u32::MAX,
            },
    {
        let ghost costs = line_totals(self@);
        let mut sum: u32 = 0;
        for i in 0..self.items.len()
            invariant
                costs == line_totals(self@),
                sum == total(costs.take(i as int)),
        {
            proof {
                lemma_total_covers(costs, i as int);
                lemma_total_take(costs, i as int);
                lemma_total_take(costs, i + 1);
            }
            match self.items[i].checked_line_total() {
                Some(price) => match sum.checked_add(price.amount()) {
                    Some(next) => {
                        sum = next;
                    },
                    None => {
                        return None;
                    },
                },
                None => {
                    return None;
                },
            }
        }
        assert(costs.take(self.items.len() as int) =~= costs);
        Some(Price::new(sum))
    }

    /// The printed order: the header, one line for each item in order, the
    /// separator, and the total. The total must fit the amount's 32 bits.
    pub fn render(&self) -> (result: String)
        requires
            self.total_spec() <= u32::MAX,
        ensures
            result@ == self.render_spec(),
    {
        let ghost costs = line_totals(self@);
        let ghost lines = receipt_lines(self.receipt());
        proof {
            reveal_strlit("\n");
        }
        let mut out = String::from_str("=== 주문 내역 ===");
        out.append("\n");
        for i in 0..self.items.len()
            invariant
                costs == line_totals(self@),
                lines == receipt_lines(self.receipt()),
                total(costs) <= u32::MAX,
                out@ == join_lines(lines.take(i + 1)) + seq!['\n'],
        {
            proof {
                lemma_total_covers(costs, i as int);
                reveal_strlit("\n");
            }
            let line = self.items[i].render();
            out.append(line.as_str());
            out.append("\n");
            proof {
                assert(lines.take(i + 2).drop_last() =~= lines.take(i + 1));
                assert(lines.take(i + 2).last() == line@);
            }
        }
        out.append("====================");
        out.append("\n");
        out.append("Total: ");
        out.append(self.get_total().format().as_str());
        proof {
            let above = lines.drop_last();
            assert(above.drop_last() =~= lines.take(self.items.len() + 1));
            assert(join_lines(above) == join_lines(above.drop_last()) + seq!['\n'] + separator());
            assert(join_lines(lines) == join_lines(above) + seq!['\n'] + total_text(
                self.total_spec(),
            ));
        }
        out
    }
}

/// An order that is printed and read back line by line says what the order
/// holds: the name, quantity and line total of each item, in order, and the
/// order's total.
pub proof fn lemma_render_round_trip(order: Order)
    ensures
        read_receipt(order.render_spec()) == Some(order.receipt()),
{
    let r = order.receipt();
    assert forall|i: int| 0 <= i < r.entries.len() implies no_line_feed(
        (#[trigger] r.entries[i]).name,
    ) by {
        lemma_name_no_line_feed(order@[i].coffee);
    }
    lemma_read_receipt(r);
}

/// Taking one line out of a sequence takes its cost out of the sum.
proof fn lemma_total_without(lines: Seq<Line>, k: int)
    requires
        0 <= k < lines.len(),
    ensures
        total(line_totals(lines)) == total(line_totals(lines.remove(k))) + lines[k].line_total(),
    decreases lines.len(),
{
    let rest = lines.remove(k);
    assert(line_totals(lines).drop_last() =~= line_totals(lines.drop_last()));
    if k < lines.len() - 1 {
        lemma_total_without(lines.drop_last(), k);
        assert(rest.drop_last() =~= lines.drop_last().remove(k));
        assert(line_totals(rest).drop_last() =~= line_totals(rest.drop_last()));
    }
}

/// What lines cost together does not depend on their order.
proof fn lemma_total_of_rearranged(one: Seq<Line>, other: Seq<Line>)
    requires
        one.to_multiset() == other.to_multiset(),
    ensures
        total(line_totals(one)) == total(line_totals(other)),
    decreases one.len(),
{
    to_multiset_len(one);
    to_multiset_len(other);
    if one.len() > 0 {
        let k = one.len() - 1;
        let line = one[k];
        one.to_multiset_ensures();
        other.to_multiset_ensures();
        assert(one.to_multiset().count(line) > 0);
        let j = choose|j: int| 0 <= j < other.len() && other[j] == line;
        to_multiset_remove(one, k);
        to_multiset_remove(other, j);
        lemma_total_of_rearranged(one.remove(k), other.remove(j));
        lemma_total_without(one, k);
        lemma_total_without(other, j);
    }
}

/// Two orders that hold the same lines, in whatever order, cost the same.
pub proof fn lemma_total_ignores_order(one: Order, other: Order)
    requires
        one@.to_multiset() == other@.to_multiset(),
    ensures
        one.total_spec() == other.total_spec(),
{
    lemma_total_of_rearranged(one@, other@);
}

} // verus!
