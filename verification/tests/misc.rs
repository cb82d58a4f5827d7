use shopping::client::item_path;
use shopping::commands::{command_page, command_request, CommandPage, RepoRequest, ShoppingCommand};
use shopping::config::Config;
use shopping::error::{ApiError, TomeError};
use shopping::item::{Item, RemoveItem, UpdateItem};
use shopping::price::{price_text, Price};
use shopping::render::{render_items, ListPage, OrderItemPage, Page};
use shopping::sort::sort_by_item_order;
use shopping::user::{UserContext, UserId};

fn item(id: i32, order: i32, name: &str) -> Item {
    Item::new(id, order, name, Price::new(1099, 2), 2, false)
}

#[test]
fn render_items_exact_text() {
    let items = vec![item(2, 5, "Bread"), Item::new(1, 1, "Fish Fingers", Price::new(-5, 0), 3, true)];
    let text = render_items("HEAD", &items);
    assert_eq!(
        text,
        "HEAD\nId|Name|Price|Quantity|Order|Picked Up\n1|Fish Fingers|-5|3|1|true\n\
2|Bread|10.99|2|5|false\n==========End of List==========\n"
    );
}

#[test]
fn list_page_header() {
    let page = ListPage::new(vec![item(1, 1, "Milk")]);
    assert!(page.render().starts_with("\n========Shopping List========\nId|Name"));
    let page = OrderItemPage::new(vec![]);
    assert_eq!(
        page.render(),
        "\n========Updated Shopping List========\nId|Name|Price|Quantity|Order|Picked Up\n\
==========End of List==========\n"
    );
}

#[test]
fn sort_is_stable() {
    let items = vec![item(1, 3, "a"), item(2, 1, "b"), item(3, 3, "c"), item(4, -2, "d"), item(5, 1, "e")];
    let ids: Vec<i32> = sort_by_item_order(&items).iter().map(|i| i.id).collect();
    assert_eq!(ids, vec![4, 2, 5, 1, 3]);
}

#[test]
fn price_text_matches_decimal() {
    assert_eq!(price_text(&Price::new(120, 2)), "1.20");
    assert_eq!(price_text(&Price::new(5, 3)), "0.005");
    assert_eq!(price_text(&Price::new(-1234, 1)), "-123.4");
    assert_eq!(price_text(&Price::new(0, 0)), "0");
    assert_eq!(price_text(&Price::new(0, 2)), "0.00");
    assert_eq!(price_text(&Price::new(42, 0)), "42");
}

#[test]
fn commands_map_to_requests_and_pages() {
    assert!(command_request(&ShoppingCommand::List).is_none());
    match command_request(&ShoppingCommand::Mark { item_id: 3, ticked: true }) {
        Some(RepoRequest::Update { item_id, update }) => {
            assert_eq!(item_id, 3);
            assert_eq!(update, UpdateItem::PickedUp { picked_up: true });
        }
        _ => panic!("expected an update"),
    }
    match command_request(&ShoppingCommand::Reorder { item_id: 4, order: 9 }) {
        Some(RepoRequest::Update { item_id, update }) => {
            assert_eq!(item_id, 4);
            assert_eq!(update, UpdateItem::ItemOrder { item_order: 9 });
        }
        _ => panic!("expected an update"),
    }
    match command_request(&ShoppingCommand::Remove { item_id: 2, quantity: 1 }) {
        Some(RepoRequest::Remove { item_id, quantity }) => assert_eq!((item_id, quantity), (2, 1)),
        _ => panic!("expected a removal"),
    }
    match command_request(&ShoppingCommand::Add { name: "Fish".to_string(), price: Price::new(1099, 2), quantity: 2 }) {
        Some(RepoRequest::Add(c)) => {
            assert_eq!(c.name, "Fish");
            assert_eq!(c.quantity, 2);
        }
        _ => panic!("expected an addition"),
    }
    assert!(matches!(command_page(&ShoppingCommand::List, vec![]), Some(CommandPage::List(_))));
    let page = command_page(&ShoppingCommand::Remove { item_id: 1, quantity: 1 }, vec![item(1, 1, "x")]).unwrap();
    assert!(page.can_render());
    assert!(page.render().contains("Updated Shopping List"));
}

#[test]
fn item_path_text() {
    assert_eq!(item_path(11), "shopping/items/11");
    assert_eq!(item_path(-1), "shopping/items/-1");
}

#[test]
fn config_default() {
    let c = Config::default();
    assert_eq!(c.addr, "127.0.0.1:3000");
    assert_eq!(c.store_path, "./store.json");
    let c = Config::from_values(Some("0.0.0.0:80".to_string()), None);
    assert_eq!(c.addr, "0.0.0.0:80");
    assert_eq!(c.store_path, "./store.json");
}

#[test]
fn errors() {
    assert_eq!(TomeError::new("boom").to_string(), "TomeError: boom");
    let e = ApiError::unauthorized("no");
    assert_eq!((e.message.as_str(), e.status), ("no", 401));
    let e = ApiError::bad_request("bad");
    assert_eq!(e.status, 400);
    let e = ApiError::internal("oops");
    assert_eq!(e.status, 500);
    let e: ApiError = String::from("x").into();
    assert_eq!((e.message.as_str(), e.status), ("x", 500));
}

#[test]
fn users() {
    let u: UserId = String::from("alice").into();
    assert_eq!(u.to_string(), "alice");
    assert_eq!(UserId::from_name("bob").0, "bob");
    let ctx = UserContext::new(u.clone(), "pw".to_string());
    assert_eq!(ctx.user.0, "alice");
    assert_eq!(ctx.password, "pw");
    assert_eq!(RemoveItem::new(3).quantity, 3);
}
