//! The commands of the client: what each asks of the store, which page it
//! prints afterwards, and the login a `login` command switches to.

use vstd::prelude::*;
use crate::credentials::Credentials;
use crate::item::{CreateItem, Item, UpdateItem};
use crate::price::Price;
use crate::render::{
    email_text, list_header, page_text, total_text, updated_header, AddItemPage, EmailPage, ListPage, MarkedItemPage, OrderItemPage, Page, RemoveItemPage, TotalPage,
};
use crate::sort::is_stable_sort;
use crate::user::UserId;

verus! {

/// A command typed at the prompt.
#[derive(Debug)]
pub enum ShoppingCommand {
    /// Print the list.
    List,
    /// Add an item.
    Add { name: String, price: Price, quantity: i32 },
    /// Take an item off.
    Remove { item_id: i32, quantity: i32 },
    /// Mark an item picked up (`ticked`) or not.
    Mark { item_id: i32, ticked: bool },
    /// Give an item a new order.
    Reorder { item_id: i32, order: i32 },
    /// Print the itemised total, with an alert when it is over `limit`.
    Total { limit: Option<Price> },
    /// Send the list by email, to `address` when one is given.
    Email { address: Option<String> },
    /// Go on as another user.
    Login { username: String, password: String },
}

/// A change a command asks of the store.
#[derive(Debug)]
pub enum RepoRequest {
    Add(CreateItem),
    Remove { item_id: i32, quantity: i32 },
    Update { item_id: i32, update: UpdateItem },
}

/// The change `cmd` asks of the store before the list is fetched again:
/// the item to add; the item to take off; or the field to change (`Mark`
/// sets picked-up, `Reorder` sets the order); none for the other commands.
pub fn command_request(cmd: &ShoppingCommand) -> (res: Option<RepoRequest>)
    ensures
        match *cmd {
            ShoppingCommand::Add { name, price, quantity } => res matches Some(RepoRequest::Add(c))
                && c.name@ == name@ && c.price == price && c.quantity == quantity,
            ShoppingCommand::Remove { item_id, quantity } => res == Some(
                RepoRequest::Remove { item_id, quantity },
            ),
            ShoppingCommand::Mark { item_id, ticked } => res == Some(
                RepoRequest::Update { item_id, update: UpdateItem::PickedUp { picked_up: ticked } },
            ),
            ShoppingCommand::Reorder { item_id, order } => res == Some(
                RepoRequest::Update { item_id, update: UpdateItem::ItemOrder { item_order: order } },
            ),
            _ => res is None,
        },
{
    match cmd {
        ShoppingCommand::Add { name, price, quantity } => Some(
            RepoRequest::Add(CreateItem::new(name.as_str(), *price, *quantity)),
        ),
        ShoppingCommand::Remove { item_id, quantity } => Some(
            RepoRequest::Remove { item_id: *item_id, quantity: *quantity },
        ),
        ShoppingCommand::Mark { item_id, ticked } => Some(
            RepoRequest::Update { item_id: *item_id, update: UpdateItem::PickedUp { picked_up: *ticked } },
        ),
        ShoppingCommand::Reorder { item_id, order } => Some(
            RepoRequest::Update { item_id: *item_id, update: UpdateItem::ItemOrder { item_order: *order } },
        ),
        _ => None,
    }
}

/// The login a `login` command switches to: its user name and password.
/// Other commands keep the current login (`None`).
pub fn command_login(cmd: &ShoppingCommand) -> (res: Option<Credentials>)
    ensures
        match *cmd {
            ShoppingCommand::Login { username, password } => res matches Some(c) && c.user@
                == username@ && c.password@ == password@,
            _ => res is None,
        },
{
    match cmd {
        ShoppingCommand::Login { username, password } => Some(
            Credentials { user: UserId::from_name(username.as_str()), password: password.clone() },
        ),
        _ => None,
    }
}

/// The page a command prints, with the list fetched after it. The email
/// page holds the body that is sent.
pub enum CommandPage {
    List(ListPage),
    Add(AddItemPage),
    Remove(RemoveItemPage),
    Marked(MarkedItemPage),
    Order(OrderItemPage),
    Total(TotalPage),
    Email(EmailPage),
}

impl CommandPage {
    /// The items on the page.
    pub open spec fn items(&self) -> Seq<Item> {
        match self {
            CommandPage::List(p) => p.page_items(),
            CommandPage::Add(p) => p.page_items(),
            CommandPage::Remove(p) => p.page_items(),
            CommandPage::Marked(p) => p.page_items(),
            CommandPage::Order(p) => p.page_items(),
            CommandPage::Total(p) => p.page_items(),
            CommandPage::Email(p) => p.page_items(),
        }
    }

    /// What the page needs to be rendered: prices `rust_decimal` can hold,
    /// and for the total and the email, subtotals (and a total) it can
    /// compute.
    pub open spec fn renderable(&self) -> bool {
        match self {
            CommandPage::List(p) => p.can_render(),
            CommandPage::Add(p) => p.can_render(),
            CommandPage::Remove(p) => p.can_render(),
            CommandPage::Marked(p) => p.can_render(),
            CommandPage::Order(p) => p.can_render(),
            CommandPage::Total(p) => p.can_render(),
            CommandPage::Email(p) => p.can_render(),
        }
    }

    /// Whether the page can be rendered (see `renderable`).
    pub fn can_render(&self) -> (res: bool)
        ensures
            res == self.renderable(),
    {
        match self {
            CommandPage::Total(p) => p.can_render_now(),
            CommandPage::Email(p) => crate::render::subtotals_in_range(p.items.as_slice()),
            CommandPage::List(p) => crate::render::prices_in_range(p.items.as_slice()),
            CommandPage::Add(p) => crate::render::prices_in_range(p.items.as_slice()),
            CommandPage::Remove(p) => crate::render::prices_in_range(p.items.as_slice()),
            CommandPage::Marked(p) => crate::render::prices_in_range(p.items.as_slice()),
            CommandPage::Order(p) => crate::render::prices_in_range(p.items.as_slice()),
        }
    }

    /// The text of the page once its items are sorted as `sorted`: the list
    /// for `List`, the updated list after a change, the total, or the body
    /// of the email.
    pub open spec fn text_of(&self, sorted: Seq<Item>) -> Seq<char> {
        match self {
            CommandPage::List(p) => p.text(sorted),
            CommandPage::Add(p) => p.text(sorted),
            CommandPage::Remove(p) => p.text(sorted),
            CommandPage::Marked(p) => p.text(sorted),
            CommandPage::Order(p) => p.text(sorted),
            CommandPage::Total(p) => p.text(sorted),
            CommandPage::Email(p) => p.text(sorted),
        }
    }

    /// The text of the page.
    pub fn render(&self) -> (res: String)
        requires
            self.renderable(),
        ensures
            exists|sorted: Seq<Item>|
                #[trigger] is_stable_sort(self.items(), sorted) && res@ == self.text_of(sorted),
    {
        // The sort each page reports is over `shown`, the items of `self`.
        let ghost shown = self.items();
        match self {
            CommandPage::List(p) => p.render(),
            CommandPage::Add(p) => p.render(),
            CommandPage::Remove(p) => p.render(),
            CommandPage::Marked(p) => p.render(),
            CommandPage::Order(p) => p.render(),
            CommandPage::Total(p) => p.render(),
            CommandPage::Email(p) => p.render(),
        }
    }
}

/// The page `cmd` prints with `items`, the list fetched after it: the list
/// page for `List`, the page of each change, the total page against the
/// limit, and the email to the address; a `login` prints no page.
pub fn command_page(cmd: &ShoppingCommand, items: Vec<Item>) -> (res: Option<CommandPage>)
    ensures
        match *cmd {
            ShoppingCommand::Login { .. } => res is None,
            _ => res matches Some(p) && p.items() == items@,
        },
        match *cmd {
            ShoppingCommand::List => res matches Some(p) && p is List,
            ShoppingCommand::Add { .. } => res matches Some(p) && p is Add,
            ShoppingCommand::Remove { .. } => res matches Some(p) && p is Remove,
            ShoppingCommand::Mark { .. } => res matches Some(p) && p is Marked,
            ShoppingCommand::Reorder { .. } => res matches Some(p) && p is Order,
            ShoppingCommand::Total { limit } => res matches Some(CommandPage::Total(p)) && p.limit == limit,
            ShoppingCommand::Email { address } => res matches Some(CommandPage::Email(p)) && p.address == address,
            ShoppingCommand::Login { .. } => res is None,
        },
{
    match cmd {
        ShoppingCommand::List => Some(CommandPage::List(ListPage::new(items))),
        ShoppingCommand::Add { .. } => Some(CommandPage::Add(AddItemPage::new(items))),
        ShoppingCommand::Remove { .. } => Some(CommandPage::Remove(RemoveItemPage::new(items))),
        ShoppingCommand::Mark { .. } => Some(CommandPage::Marked(MarkedItemPage::new(items))),
        ShoppingCommand::Reorder { .. } => Some(CommandPage::Order(OrderItemPage::new(items))),
        ShoppingCommand::Total { limit } => Some(CommandPage::Total(TotalPage::new(items, *limit))),
        ShoppingCommand::Email { address } => Some(
            CommandPage::Email(EmailPage::new(items, address.clone())),
        ),
        ShoppingCommand::Login { .. } => None,
    }
}

/// Whatever command printed it, a page shows its items stably sorted by
/// item order: the list under the list header, the updated list after a
/// change, the total of those rows, or their email.
pub proof fn law_command_pages_rows_sorted(page: CommandPage, sorted: Seq<Item>)
    requires
        is_stable_sort(page.items(), sorted),
    ensures
        page.text_of(sorted) == match page {
            CommandPage::List(_) => page_text(list_header(), sorted),
            CommandPage::Total(p) => total_text(sorted, p.limit),
            CommandPage::Email(_) => email_text(sorted),
            _ => page_text(updated_header(), sorted),
        },
{
}

} // verus!
