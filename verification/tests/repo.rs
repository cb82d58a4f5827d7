use shopping::item::{CreateItem, UpdateItem};
use shopping::price::Price;
use shopping::repo::InMemoryRepo;
use shopping::user::UserId;

fn user(name: &str) -> UserId {
    UserId(name.to_string())
}

fn sample_item(name: &str) -> CreateItem {
    CreateItem {
        name: name.to_string(),
        price: Price::new(10, 1),
        quantity: 1,
    }
}

#[test]
fn repo_isolates_users() {
    let mut repo = InMemoryRepo::new();
    repo.add_item(sample_item("Milk"), user("alice"), "");
    repo.add_item(sample_item("Bread"), user("bob"), "");

    let alice_items = repo.list_items(user("alice"), "");
    assert_eq!(alice_items.len(), 1);
    assert_eq!(alice_items[0].name, "Milk");

    let bob_items = repo.list_items(user("bob"), "");
    assert_eq!(bob_items.len(), 1);
    assert_eq!(bob_items[0].name, "Bread");
}

#[test]
fn add_item_assigns_incrementing_ids_per_user() {
    let mut repo = InMemoryRepo::new();
    repo.add_item(sample_item("A"), user("alice"), "");
    repo.add_item(sample_item("B"), user("alice"), "");
    repo.add_item(sample_item("C"), user("alice"), "");

    let items = repo.list_items(user("alice"), "");
    assert_eq!(items.len(), 3);
    assert_eq!(items[0].id, 1);
    assert_eq!(items[1].id, 2);
    assert_eq!(items[2].id, 3);
}

#[test]
fn remove_item_removes_only_target_item() {
    let mut repo = InMemoryRepo::new();
    repo.add_item(sample_item("A"), user("alice"), "");
    repo.add_item(sample_item("B"), user("alice"), "");
    repo.add_item(sample_item("C"), user("alice"), "");

    repo.remove_item(2, 1, user("alice"), "");

    let items = repo.list_items(user("alice"), "");
    assert_eq!(items.len(), 2);
    let names: Vec<_> = items.iter().map(|i| i.name.as_str()).collect();
    assert_eq!(names, vec!["A", "C"]);
}

#[test]
fn update_item_updates_picked_up_flag() {
    let mut repo = InMemoryRepo::new();
    repo.add_item(sample_item("Milk"), user("alice"), "");
    repo.update_item(1, UpdateItem::PickedUp { picked_up: true }, user("alice"), "");
    let items = repo.list_items(user("alice"), "");
    assert_eq!(items[0].picked_up, true);
}

#[test]
fn update_item_updates_item_order() {
    let mut repo = InMemoryRepo::new();
    repo.add_item(sample_item("Milk"), user("alice"), "");
    repo.update_item(1, UpdateItem::ItemOrder { item_order: 42 }, user("alice"), "");
    let items = repo.list_items(user("alice"), "");
    assert_eq!(items[0].item_order, 42);
}

#[test]
fn removing_item_for_one_user_does_not_affect_other_users() {
    let mut repo = InMemoryRepo::new();
    repo.add_item(sample_item("A"), user("alice"), "");
    repo.add_item(sample_item("B"), user("bob"), "");

    repo.remove_item(1, 1, user("alice"), "");

    let bob_items = repo.list_items(user("bob"), "");
    assert_eq!(bob_items.len(), 1);
    assert_eq!(bob_items[0].name, "B");
    assert!(repo.list_items(user("alice"), "").is_empty());
}

#[test]
fn list_of_unknown_user_is_empty() {
    let repo = InMemoryRepo::new();
    assert!(repo.list_items(user("nobody"), "pw").is_empty());
}

#[test]
fn added_item_carries_the_request() {
    let mut repo = InMemoryRepo::new();
    repo.add_item(CreateItem::new("Juice", Price::new(150, 2), 2), user("dave"), "pw");
    let items = repo.list_items(user("dave"), "pw");
    assert_eq!(items.len(), 1);
    assert_eq!(items[0].id, 1);
    assert_eq!(items[0].item_order, 1);
    assert_eq!(items[0].name, "Juice");
    assert_eq!((items[0].price.mantissa, items[0].price.scale), (150, 2));
    assert_eq!(items[0].quantity, 2);
    assert!(!items[0].picked_up);
}

#[test]
fn remove_and_update_of_missing_id_change_nothing() {
    let mut repo = InMemoryRepo::new();
    repo.add_item(sample_item("A"), user("alice"), "");
    repo.remove_item(7, 1, user("alice"), "");
    repo.update_item(7, UpdateItem::PickedUp { picked_up: true }, user("alice"), "");
    repo.update_item(1, UpdateItem::PickedUp { picked_up: true }, user("carol"), "");
    repo.remove_item(1, 1, user("carol"), "");
    let items = repo.list_items(user("alice"), "");
    assert_eq!(items.len(), 1);
    assert!(!items[0].picked_up);
    assert!(repo.list_items(user("carol"), "").is_empty());
}

#[test]
fn update_changes_only_the_first_item_with_the_id() {
    let mut items = Vec::new();
    shopping::item::add_to_list(&mut items, sample_item("A"));
    shopping::item::add_to_list(&mut items, sample_item("B"));
    items[1].id = 1;
    shopping::item::update_in_list(&mut items, 1, UpdateItem::ItemOrder { item_order: 9 });
    assert_eq!(items[0].item_order, 9);
    assert_eq!(items[1].item_order, 2);
}

#[test]
fn remove_takes_off_every_item_with_the_id() {
    let mut items = Vec::new();
    shopping::item::add_to_list(&mut items, sample_item("A"));
    shopping::item::add_to_list(&mut items, sample_item("B"));
    shopping::item::add_to_list(&mut items, sample_item("C"));
    items[2].id = 1;
    shopping::item::remove_from_list(&mut items, 1);
    assert_eq!(items.len(), 1);
    assert_eq!(items[0].name, "B");
}
