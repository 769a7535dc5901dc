//! The catalog: the drinks on offer, their names and their prices.

use vstd::prelude::*;
use vstd::string::*;
use crate::price::Price;

verus! {

/// The size of a drink that comes in sizes.
#[derive(Debug, Clone, Copy, PartialEq, Eq, Structural)]
pub enum Size {
    Small,
    Medium,
    Large,
}

/// A drink of the catalog. A latte comes in three sizes; the others in one.
#[derive(Debug, Clone, Copy, PartialEq, Eq, Structural)]
pub enum Coffee {
    Espresso,
    Latte(Size),
    Cappuccino,
}

impl Size {
    /// The label of the size as it is printed.
    pub open spec fn label_spec(self) -> Seq<char> {
        match self {
            Size::Small => "Small"@,
            Size::Medium => "Medium"@,
            Size::Large => "Large"@,
        }
    }

    /// The label of the size: `Small`, `Medium` or `Large`.
    pub fn label(&self) -> (result: String)
        ensures
            result@ == self.label_spec(),
    {
        match self {
            Size::Small => String::from_str("Small"),
            Size::Medium => String::from_str("Medium"),
            Size::Large => String::from_str("Large"),
        }
    }
}

impl Coffee {
    /// The name under which the drink is sold. A latte's name holds its
    /// size: the word `Latte`, then the size's label in round brackets.
    pub open spec fn name_spec(self) -> Seq<char> {
        match self {
            Coffee::Espresso => "Espresso"@,
            Coffee::Latte(size) => "Latte ("@ + size.label_spec() + ")"@,
            Coffee::Cappuccino => "Cappuccino"@,
        }
    }

    /// The price in won of one piece of the drink.
    pub open spec fn price_spec(self) -> nat {
        match self {
            Coffee::Espresso => 2000,
            Coffee::Latte(Size::Small) => 2300,
            Coffee::Latte(Size::Medium) => 2500,
            Coffee::Latte(Size::Large) => 2700,
            Coffee::Cappuccino => 3000,
        }
    }

    /// The name of a latte of the given size, such as `Latte (Large)`.
    pub fn describe_latte(size: &Size) -> (result: String)
        ensures
            result@ == Coffee::Latte(*size).name_spec(),
    {
        proof {
            reveal_strlit("Latte (");
            reveal_strlit(")");
            reveal_strlit("Small");
            reveal_strlit("Medium");
            reveal_strlit("Large");
            reveal_strlit("Latte (Small)");
            reveal_strlit("Latte (Medium)");
            reveal_strlit("Latte (Large)");
        }
        match size {
            Size::Small => String::from_str("Latte (Small)"),
            Size::Medium => String::from_str("Latte (Medium)"),
            Size::Large => String::from_str("Latte (Large)"),
        }
    }

    /// The price of a latte of the given size.
    pub fn latte_price(size: &Size) -> (result: Price)
        ensures
            result@ == Coffee::Latte(*size).price_spec(),
    {
        match size {
            Size::Small => Price::new(2300),
            Size::Medium => Price::new(2500),
            Size::Large => Price::new(2700),
        }
    }

    /// The name under which the drink is sold.
    pub fn get_name(&self) -> (result: String)
        ensures
            result@ == self.name_spec(),
    {
        match self {
            Coffee::Espresso => String::from_str("Espresso"),
            Coffee::Latte(size) => Self::describe_latte(size),
            Coffee::Cappuccino => String::from_str("Cappuccino"),
        }
    }

    /// The price of one piece of the drink.
    pub fn get_price(&self) -> (result: Price)
        ensures
            result@ == self.price_spec(),
    {
        match self {
            Coffee::Espresso => Price::new(2000),
            Coffee::Latte(size) => Self::latte_price(size),
            Coffee::Cappuccino => Price::new(3000),
        }
    }
}

} // verus!
