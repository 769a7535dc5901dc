use coffee_order::coffee::{Coffee, Size};
use coffee_order::order::{Order, OrderItem};
use coffee_order::price::Price;

#[test]
fn test_order_item_creation() {
    let coffee = Coffee::Espresso;
    let item = OrderItem::new(coffee, 2).unwrap();
    assert_eq!(item.quantity(), 2);
    assert_eq!(item.line_total(), Price::new(4000)); // 2000 * 2
}

#[test]
fn test_order_item_invalid_quantity() {
    let coffee = Coffee::Cappuccino;
    let result = OrderItem::new(coffee, 0);
    assert!(result.is_err());
}

#[test]
fn test_order_total() {
    let item1 = OrderItem::new(Coffee::Espresso, 1).unwrap(); // 2000
    let item2 = OrderItem::new(Coffee::Latte(Size::Large), 2).unwrap(); // 2700 * 2 = 5400
    let order = Order::new(vec![item1, item2]);

    assert_eq!(order.get_total(), Price::new(7400));
}

#[test]
fn test_empty_order() {
    let order = Order::new(vec![]);
    assert_eq!(order.get_total(), Price::new(0));
}

fn catalog() -> [Coffee; 5] {
    [
        Coffee::Espresso,
        Coffee::Latte(Size::Small),
        Coffee::Latte(Size::Medium),
        Coffee::Latte(Size::Large),
        Coffee::Cappuccino,
    ]
}

#[test]
fn a_quantity_of_zero_is_refused_for_every_drink() {
    for coffee in catalog() {
        assert_eq!(
            OrderItem::new(coffee, 0).unwrap_err(),
            "Quantity must be greater than 0"
        );
    }
}

#[test]
fn a_positive_quantity_is_accepted_and_kept() {
    for coffee in catalog() {
        for quantity in [1, 2, 10, 1000, u32::MAX] {
            let item = OrderItem::new(coffee, quantity).unwrap();
            assert_eq!(item.quantity(), quantity);
            assert_eq!(item.coffee(), coffee);
        }
    }
}

#[test]
fn line_total_is_price_times_quantity() {
    for coffee in catalog() {
        for quantity in [1, 2, 3, 10, 1000, 1_000_000] {
            let item = OrderItem::new(coffee, quantity).unwrap();
            assert_eq!(item.line_total().amount(), coffee.get_price().amount() * quantity);
        }
    }
    let item = OrderItem::new(Coffee::Latte(Size::Medium), 4).unwrap();
    assert_eq!(item.line_total(), Price::new(10000));
}

#[test]
fn checked_line_total_is_none_only_beyond_32_bits() {
    let fits = OrderItem::new(Coffee::Cappuccino, 1_431_655).unwrap();
    assert_eq!(fits.checked_line_total(), Some(Price::new(4_294_965_000)));
    assert_eq!(fits.line_total(), Price::new(4_294_965_000));
    let too_much = OrderItem::new(Coffee::Cappuccino, 1_431_656).unwrap();
    assert_eq!(too_much.checked_line_total(), None);
    let small = OrderItem::new(Coffee::Espresso, 2).unwrap();
    assert_eq!(small.checked_line_total(), Some(Price::new(4000)));
    assert_eq!(OrderItem::new(Coffee::Espresso, u32::MAX).unwrap().checked_line_total(), None);
}

#[test]
fn a_clone_says_the_same() {
    let item = OrderItem::new(Coffee::Latte(Size::Small), 7).unwrap();
    let copy = item.clone();
    assert_eq!(copy.coffee(), Coffee::Latte(Size::Small));
    assert_eq!(copy.quantity(), 7);
    assert_eq!(copy.line_total(), item.line_total());
}

#[test]
fn an_item_is_printed_as_name_quantity_and_line_total() {
    let item = OrderItem::new(Coffee::Espresso, 2).unwrap();
    assert_eq!(item.render(), "Espresso x 2 - ₩4000");
    let item = OrderItem::new(Coffee::Latte(Size::Large), 1).unwrap();
    assert_eq!(item.render(), "Latte (Large) x 1 - ₩2700");
    let item = OrderItem::new(Coffee::Cappuccino, 1_000_000).unwrap();
    assert_eq!(item.render(), "Cappuccino x 1000000 - ₩3000000000");
}

#[test]
fn an_order_keeps_its_items_in_order() {
    let order = Order::new(vec![
        OrderItem::new(Coffee::Cappuccino, 3).unwrap(),
        OrderItem::new(Coffee::Espresso, 1).unwrap(),
        OrderItem::new(Coffee::Cappuccino, 2).unwrap(),
    ]);
    let items = order.items();
    assert_eq!(items.len(), 3);
    assert_eq!((items[0].coffee(), items[0].quantity()), (Coffee::Cappuccino, 3));
    assert_eq!((items[1].coffee(), items[1].quantity()), (Coffee::Espresso, 1));
    assert_eq!((items[2].coffee(), items[2].quantity()), (Coffee::Cappuccino, 2));
    assert!(Order::new(vec![]).items().is_empty());
}

#[test]
fn total_of_three_items() {
    let order = Order::new(vec![
        OrderItem::new(Coffee::Espresso, 2).unwrap(),
        OrderItem::new(Coffee::Latte(Size::Large), 1).unwrap(),
        OrderItem::new(Coffee::Cappuccino, 3).unwrap(),
    ]);
    assert_eq!(order.get_total(), Price::new(15700)); // 4000 + 2700 + 9000
    assert_eq!(order.checked_total(), Some(Price::new(15700)));
}

#[test]
fn total_is_the_sum_of_the_line_totals() {
    let order = Order::new(vec![
        OrderItem::new(Coffee::Latte(Size::Small), 3).unwrap(),
        OrderItem::new(Coffee::Latte(Size::Medium), 5).unwrap(),
        OrderItem::new(Coffee::Espresso, 1).unwrap(),
        OrderItem::new(Coffee::Latte(Size::Small), 1).unwrap(),
    ]);
    let mut sum = Price::new(0);
    for item in order.items() {
        sum.add_assign(item.line_total());
    }
    assert_eq!(order.get_total(), sum);
    assert_eq!(order.get_total().amount(), 6900 + 12500 + 2000 + 2300);
}

#[test]
fn total_does_not_depend_on_the_order_of_the_items() {
    let one = Order::new(vec![
        OrderItem::new(Coffee::Espresso, 1).unwrap(),
        OrderItem::new(Coffee::Latte(Size::Large), 2).unwrap(),
    ]);
    let other = Order::new(vec![
        OrderItem::new(Coffee::Latte(Size::Large), 2).unwrap(),
        OrderItem::new(Coffee::Espresso, 1).unwrap(),
    ]);
    assert_eq!(one.get_total(), other.get_total());
}

#[test]
fn checked_total_of_an_empty_order_is_zero() {
    assert_eq!(Order::new(vec![]).checked_total(), Some(Price::new(0)));
}

#[test]
fn checked_total_is_none_only_beyond_32_bits() {
    let at_the_limit = Order::new(vec![
        OrderItem::new(Coffee::Cappuccino, 1_431_655).unwrap(), // 4294965000
        OrderItem::new(Coffee::Cappuccino, 1).unwrap(),         // and 3000 is too much
    ]);
    assert_eq!(at_the_limit.checked_total(), None);
    let one_line_too_much = Order::new(vec![
        OrderItem::new(Coffee::Espresso, 1).unwrap(),
        OrderItem::new(Coffee::Espresso, u32::MAX).unwrap(),
    ]);
    assert_eq!(one_line_too_much.checked_total(), None);
    let fits = Order::new(vec![
        OrderItem::new(Coffee::Espresso, 1_000_000).unwrap(),
        OrderItem::new(Coffee::Latte(Size::Small), 997_811).unwrap(),
    ]);
    assert_eq!(fits.checked_total(), Some(Price::new(4_294_965_300)));
    assert_eq!(fits.get_total(), Price::new(4_294_965_300));
}
