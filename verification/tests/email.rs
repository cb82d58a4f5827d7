use shopping::item::Item;
use shopping::price::Price;
use shopping::render::{item_subtotal, render_email};

fn item(id: i32, order: i32, name: &str, price: Price, qty: i32) -> Item {
    Item::new(id, order, name, price, qty, false)
}

fn dec(mantissa: i128, scale: u32) -> Price {
    Price::new(mantissa, scale)
}

#[test]
fn render_email_sorts_items_and_formats_subtotals() {
    let items = vec![
        item(1, 20, "Bread", dec(80, 2), 1),
        item(2, 10, "Milk", dec(120, 2), 2),
        item(3, 30, "Eggs", dec(10, 2), 12),
    ];

    let email = render_email(&items);

    let milk_pos = email.find("Milk").unwrap();
    let bread_pos = email.find("Bread").unwrap();
    let eggs_pos = email.find("Eggs").unwrap();

    assert!(milk_pos < bread_pos);
    assert!(bread_pos < eggs_pos);

    assert!(email.contains("Milk | 2 | £1.20 | £2.40"));
    assert!(email.contains("Bread | 1 | £0.80 | £0.80"));
    assert!(email.contains("Eggs | 12 | £0.10 | £1.20"));

    assert!(email.contains("Your Shopping List"));
    assert!(email.contains("Item | Qty | Price | Subtotal"));
}

#[test]
fn render_email_exact_text() {
    let items = vec![item(1, 1, "Tea", dec(25, 1), 3)];
    let email = render_email(&items);
    assert_eq!(
        email,
        "Your Shopping List\n====================\n\nItem | Qty | Price | Subtotal\n\
--------------------------------\nTea | 3 | £2.50 | £7.50\n\nThanks for using the Shopping CLI!\n"
    );
}

#[test]
fn render_email_of_empty_list() {
    let email = render_email(&[]);
    assert_eq!(
        email,
        "Your Shopping List\n====================\n\nItem | Qty | Price | Subtotal\n\
--------------------------------\n\nThanks for using the Shopping CLI!\n"
    );
}

#[test]
fn render_email_keeps_equal_orders_in_input_order() {
    let items = vec![
        item(1, 5, "Zucchini", dec(1, 0), 1),
        item(2, 5, "Apple", dec(1, 0), 1),
        item(3, 1, "Kiwi", dec(1, 0), 1),
    ];
    let email = render_email(&items);
    let k = email.find("Kiwi").unwrap();
    let z = email.find("Zucchini").unwrap();
    let a = email.find("Apple").unwrap();
    assert!(k < z && z < a);
}

#[test]
fn subtotal_rounds_half_to_even() {
    // 1 x 1.005 = 1.005 -> 1.00 (the half goes to the even 0)
    let s = item_subtotal(&item(1, 1, "A", dec(1005, 3), 1));
    assert_eq!((s.mantissa, s.scale), (100, 2));
    // 1 x 1.015 -> 1.02
    let s = item_subtotal(&item(1, 1, "A", dec(1015, 3), 1));
    assert_eq!((s.mantissa, s.scale), (102, 2));
    // 3 x 0.3333 = 0.9999 -> 1.00
    let s = item_subtotal(&item(1, 1, "A", dec(3333, 4), 3));
    assert_eq!((s.mantissa, s.scale), (100, 2));
    // -2 x 1.2345 = -2.4690 -> -2.47
    let s = item_subtotal(&item(1, 1, "A", dec(12345, 4), -2));
    assert_eq!((s.mantissa, s.scale), (-247, 2));
}

#[test]
fn subtotal_of_zero_quantity_is_zero() {
    let s = item_subtotal(&item(1, 1, "A", dec(199, 2), 0));
    assert_eq!((s.mantissa, s.scale), (0, 0));
}

#[test]
fn subtotal_keeps_short_scales() {
    let s = item_subtotal(&item(1, 1, "A", dec(5, 1), 3));
    assert_eq!((s.mantissa, s.scale), (15, 1));
}

#[test]
fn email_prices_are_cut_to_two_places() {
    let items = vec![item(1, 1, "Gold", dec(12349, 3), 1)];
    let email = render_email(&items);
    assert!(email.contains("Gold | 1 | £12.34 | £12.35"));
}

#[test]
fn email_pads_whole_prices() {
    let items = vec![item(1, 1, "Bag", dec(3, 0), 2)];
    let email = render_email(&items);
    assert!(email.contains("Bag | 2 | £3.00 | £6.00"));
}
