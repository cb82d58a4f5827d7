use shopping::commands::{command_login, command_page, command_request, CommandPage, ShoppingCommand};
use shopping::item::Item;
use shopping::price::Price;
use shopping::render::{item_subtotal, render_email, EmailPage, Page, TotalPage};

fn item(id: i32, order: i32, name: &str, price: Price, qty: i32) -> Item {
    Item::new(id, order, name, price, qty, false)
}

fn basket() -> Vec<Item> {
    vec![item(1, 20, "Bread", Price::new(80, 2), 1), item(2, 10, "Milk", Price::new(120, 2), 2)]
}

const TOTAL_HEAD: &str = "\n========Shopping Total========\nItem | Qty | Price | Subtotal\n";

#[test]
fn total_page_exact_text() {
    let page = TotalPage::new(basket(), None);
    assert_eq!(
        page.render(),
        format!("{TOTAL_HEAD}Milk | 2 | £1.20 | £2.40\nBread | 1 | £0.80 | £0.80\nTotal: £3.20\n")
    );
}

#[test]
fn total_page_alerts_over_limit() {
    let page = TotalPage::new(basket(), Some(Price::new(3, 0)));
    assert_eq!(
        page.render(),
        format!(
            "{TOTAL_HEAD}Milk | 2 | £1.20 | £2.40\nBread | 1 | £0.80 | £0.80\nTotal: £3.20\n\
Over your limit of £3.00!\n"
        )
    );
}

#[test]
fn total_page_no_alert_at_or_under_limit() {
    let at = TotalPage::new(basket(), Some(Price::new(320, 2))).render();
    assert!(at.ends_with("Total: £3.20\n"));
    let under = TotalPage::new(basket(), Some(Price::new(5, 0))).render();
    assert!(under.ends_with("Total: £3.20\n"));
}

#[test]
fn total_page_of_empty_list() {
    let page = TotalPage::new(vec![], Some(Price::new(-1, 0)));
    assert_eq!(page.render(), format!("{TOTAL_HEAD}Total: £0.00\nOver your limit of £-1.00!\n"));
}

#[test]
fn total_page_sums_rounded_subtotals() {
    let items = vec![item(1, 1, "A", Price::new(1005, 3), 1), item(2, 2, "B", Price::new(1015, 3), 1)];
    let text = TotalPage::new(items, None).render();
    assert!(text.contains("A | 1 | £1.00 | £1.00\n"));
    assert!(text.contains("B | 1 | £1.01 | £1.02\n"));
    assert!(text.ends_with("Total: £2.02\n"));
}

#[test]
fn total_page_refuses_a_limit_out_of_range() {
    let page = TotalPage::new(basket(), Some(Price::new(1, 29)));
    assert!(!page.can_render_now());
    assert!(TotalPage::new(basket(), None).can_render_now());
}

#[test]
fn email_page_holds_address_and_body() {
    let page = EmailPage::new(basket(), Some("a@b.c".to_string()));
    assert_eq!(page.address.as_deref(), Some("a@b.c"));
    assert_eq!(page.render(), render_email(&basket()));
}

#[test]
fn commands_give_total_and_email_pages() {
    let cmd = ShoppingCommand::Total { limit: Some(Price::new(1, 0)) };
    assert!(command_request(&cmd).is_none());
    match command_page(&cmd, basket()) {
        Some(CommandPage::Total(p)) => {
            let l = p.limit.unwrap();
            assert_eq!((l.mantissa, l.scale), (1, 0));
            assert!(p.render().ends_with("Over your limit of £1.00!\n"));
        }
        _ => panic!("expected the total page"),
    }
    let cmd = ShoppingCommand::Email { address: None };
    assert!(command_request(&cmd).is_none());
    match command_page(&cmd, basket()) {
        Some(CommandPage::Email(p)) => {
            assert!(p.address.is_none());
            assert!(p.render().starts_with("Your Shopping List"));
        }
        _ => panic!("expected the email page"),
    }
}

#[test]
fn login_command_switches_user() {
    let cmd = ShoppingCommand::Login { username: "bob".to_string(), password: "pw".to_string() };
    let creds = command_login(&cmd).unwrap();
    assert_eq!(creds.user.0, "bob");
    assert_eq!(creds.password, "pw");
    assert!(command_request(&cmd).is_none());
    assert!(command_page(&cmd, basket()).is_none());
    assert!(command_login(&ShoppingCommand::List).is_none());
}

#[test]
fn subtotal_rescaled_when_exact_product_is_too_wide() {
    let it = item(1, 1, "Big", Price::new(79228162514264337593543950335, 28), 2);
    let sub = item_subtotal(&it);
    assert_eq!((sub.mantissa, sub.scale), (1585, 2));
    let email = render_email(&[it]);
    assert!(email.contains("Big | 2 | £7.92 | £15.85\n"));
}

#[test]
fn page_with_unrenderable_subtotal_is_refused() {
    let it = item(1, 1, "Huge", Price::new(79228162514264337593543950335, 0), 2);
    let page = command_page(&ShoppingCommand::Email { address: None }, vec![it]).unwrap();
    assert!(!page.can_render());
}
