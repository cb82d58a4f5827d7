//! The items of a shopping list and the requests that create and change them.

use vstd::prelude::*;
use crate::price::Price;

verus! {

/// One line of a shopping list.
#[derive(Debug)]
pub struct Item {
    pub id: i32,
    pub item_order: i32,
    pub name: String,
    pub price: Price,
    pub quantity: i32,
    pub picked_up: bool,
}

impl Clone for Item {
    fn clone(&self) -> (res: Self)
        ensures
            res == *self,
    {
        Item {
            id: self.id,
            item_order: self.item_order,
            name: self.name.clone(),
            price: self.price,
            quantity: self.quantity,
            picked_up: self.picked_up,
        }
    }
}

impl Item {
    /// The price is one a `rust_decimal::Decimal` can hold.
    pub open spec fn wf(self) -> bool {
        self.price.wf()
    }

    /// An item with the given fields.
    pub fn new(
        id: i32,
        item_order: i32,
        name: &str,
        price: Price,
        quantity: i32,
        picked_up: bool,
    ) -> (res: Self)
        ensures
            res.id == id,
            res.item_order == item_order,
            res.name@ == name@,
            res.price == price,
            res.quantity == quantity,
            res.picked_up == picked_up,
    {
        Item { id, item_order, name: name.to_owned(), price, quantity, picked_up }
    }
}

/// What a user asks to add to their list.
#[derive(Debug)]
pub struct CreateItem {
    pub name: String,
    pub price: Price,
    pub quantity: i32,
}

impl CreateItem {
    /// A request to add `quantity` of `name` at `price`.
    pub fn new(name: &str, price: Price, quantity: i32) -> (res: Self)
        ensures
            res.name@ == name@,
            res.price == price,
            res.quantity == quantity,
    {
        CreateItem { name: name.to_owned(), price, quantity }
    }
}

/// A request to take an item off a list; the quantity is carried but the
/// whole item is taken off.
#[derive(Debug, Clone, Copy, PartialEq, Eq, Structural)]
pub struct RemoveItem {
    pub quantity: i32,
}

impl RemoveItem {
    /// A removal of `quantity`.
    pub fn new(quantity: i32) -> (res: Self)
        ensures
            res.quantity == quantity,
    {
        RemoveItem { quantity }
    }
}

/// A change to one field of an item.
#[derive(Debug, Clone, Copy, PartialEq, Eq, Structural)]
pub enum UpdateItem {
    PickedUp { picked_up: bool },
    ItemOrder { item_order: i32 },
}

/// The id and order `add_item` gives the next item of a list of `len`
/// items: one more than the length taken as an `i32` (`len as i32 + 1`).
pub open spec fn next_id(len: nat) -> i32 {
    ((len as i32) + 1) as i32
}

/// The item that `add_item` appends to `items`: the next id and the next
/// order (both `next_id` of the length), not yet picked up.
pub open spec fn next_item(items: Seq<Item>, req: CreateItem) -> Item {
    Item {
        id: next_id(items.len()),
        item_order: next_id(items.len()),
        name: req.name,
        price: req.price,
        quantity: req.quantity,
        picked_up: false,
    }
}

/// `items` after adding `req`.
pub open spec fn added(items: Seq<Item>, req: CreateItem) -> Seq<Item> {
    items.push(next_item(items, req))
}

/// `items` without the items whose id is `id`, the others in order.
pub open spec fn without_id(items: Seq<Item>, id: i32) -> Seq<Item>
    decreases items.len(),
{
    if items.len() == 0 {
        Seq::empty()
    } else {
        let w = without_id(items.drop_last(), id);
        if items.last().id == id {
            w
        } else {
            w.push(items.last())
        }
    }
}

/// `item` changed as `upd` says.
pub open spec fn apply_update(item: Item, upd: UpdateItem) -> Item {
    match upd {
        UpdateItem::PickedUp { picked_up } => Item { picked_up, ..item },
        UpdateItem::ItemOrder { item_order } => Item { item_order, ..item },
    }
}

/// `k` is the first index of an item with id `id`.
pub open spec fn is_first_with_id(items: Seq<Item>, id: i32, k: int) -> bool {
    &&& 0 <= k < items.len()
    &&& items[k].id == id
    &&& forall|j: int| 0 <= j < k ==> #[trigger] items[j].id != id
}

/// `items` with the first item whose id is `id` changed by `upd`; unchanged
/// when no item has that id.
pub open spec fn updated(items: Seq<Item>, id: i32, upd: UpdateItem) -> Seq<Item> {
    if exists|k: int| is_first_with_id(items, id, k) {
        let k = choose|k: int| is_first_with_id(items, id, k);
        items.update(k, apply_update(items[k], upd))
    } else {
        items
    }
}

/// Appends the item for `req` to `items`, with the next id and order.
pub fn add_to_list(items: &mut Vec<Item>, req: CreateItem)
    requires
        (old(items).len() as i32) < i32::MAX,
    ensures
        final(items)@ == added(old(items)@, req),
{
    let n = #[verifier::truncate] (items.len() as i32);
    let id = n + 1;
    let item_order = n + 1;
    items.push(
        Item {
            id,
            name: req.name,
            price: req.price,
            item_order,
            quantity: req.quantity,
            picked_up: false,
        },
    );
}

/// Takes every item with id `id` off `items`, keeping the others in order.
pub fn remove_from_list(items: &mut Vec<Item>, id: i32)
    ensures
        final(items)@ == without_id(old(items)@, id),
{
    let mut kept: Vec<Item> = Vec::new();
    let n = items.len();
    let mut i: usize = 0;
    while i < n
        invariant
            n == items@.len(),
            i <= n,
            kept@ == without_id(items@.subrange(0, i as int), id),
        decreases n - i,
    {
        let ghost pre = items@.subrange(0, i as int);
        assert(items@.subrange(0, i + 1).drop_last() =~= pre);
        if items[i].id != id {
            kept.push(items[i].clone());
        }
        i = i + 1;
    }
    assert(items@.subrange(0, n as int) =~= items@);
    *items = kept;
}

/// Changes the first item with id `id` as `upd` says; does nothing when no
/// item has that id.
pub fn update_in_list(items: &mut Vec<Item>, id: i32, upd: UpdateItem)
    ensures
        final(items)@ == updated(old(items)@, id, upd),
{
    let n = items.len();
    let mut k: usize = 0;
    while k < n
        invariant
            n == items@.len(),
            items@ == old(items)@,
            k <= n,
            forall|j: int| 0 <= j < k ==> #[trigger] items@[j].id != id,
        decreases n - k,
    {
        if items[k].id == id {
            let ghost s = items@;
            assert(is_first_with_id(s, id, k as int));
            proof {
                let c = choose|c: int| is_first_with_id(s, id, c);
                if c < k {
                    assert(s[c].id != id);
                } else if c > k {
                    assert(s[k as int].id != id);
                }
            }
            let mut item = items[k].clone();
            match upd {
                UpdateItem::PickedUp { picked_up } => {
                    item.picked_up = picked_up;
                },
                UpdateItem::ItemOrder { item_order } => {
                    item.item_order = item_order;
                },
            }
            assert(item == apply_update(s[k as int], upd));
            items.set(k, item);
            return;
        }
        k = k + 1;
    }
    assert(!exists|c: int| is_first_with_id(items@, id, c));
}

/// The list that `add_item` builds from an empty list, one request after
/// another.
pub open spec fn added_all(reqs: Seq<CreateItem>) -> Seq<Item>
    decreases reqs.len(),
{
    if reqs.len() == 0 {
        Seq::empty()
    } else {
        added(added_all(reqs.drop_last()), reqs.last())
    }
}

/// Adding items to an empty list numbers them 1, 2, 3, ... in the order
/// they were added: the k-th added item has id and order k + 1, the name,
/// price and quantity asked for, and is not yet picked up.
pub proof fn law_adds_number_items_in_order(reqs: Seq<CreateItem>)
    requires
        reqs.len() < i32::MAX,
    ensures
        added_all(reqs).len() == reqs.len(),
        forall|k: int|
            0 <= k < reqs.len() ==> {
                let it = #[trigger] added_all(reqs)[k];
                &&& it.id == k + 1
                &&& it.item_order == k + 1
                &&& it.name == reqs[k].name
                &&& it.price == reqs[k].price
                &&& it.quantity == reqs[k].quantity
                &&& !it.picked_up
            },
    decreases reqs.len(),
{
    if reqs.len() > 0 {
        law_adds_number_items_in_order(reqs.drop_last());
        let pre = added_all(reqs.drop_last());
        assert forall|k: int| 0 <= k < reqs.len() - 1 implies #[trigger] added_all(reqs)[k]
            == pre[k] && reqs[k] == reqs.drop_last()[k] by {}
    }
}

/// Removing an id takes off every item with that id and only those: no
/// item left has the id, every item left was in the list, and every item of
/// the list with another id is still there.
pub proof fn law_remove_takes_off_only_target(items: Seq<Item>, id: i32)
    ensures
        forall|k: int| 0 <= k < without_id(items, id).len() ==> #[trigger] without_id(items, id)[k].id != id,
        forall|k: int| 0 <= k < without_id(items, id).len() ==> items.contains(#[trigger] without_id(items, id)[k]),
        forall|k: int| 0 <= k < items.len() && #[trigger] items[k].id != id ==> without_id(items, id).contains(items[k]),
    decreases items.len(),
{
    if items.len() > 0 {
        let init = items.drop_last();
        law_remove_takes_off_only_target(init, id);
        let w = without_id(init, id);
        let r = without_id(items, id);
        assert forall|k: int| 0 <= k < r.len() implies items.contains(#[trigger] r[k]) by {
            if k < w.len() {
                assert(r[k] == w[k]);
                let j = choose|j: int| 0 <= j < init.len() && init[j] == w[k];
                assert(items[j] == init[j]);
            } else {
                assert(r[k] == items.last());
                assert(items[items.len() - 1] == items.last());
            }
        }
        assert forall|k: int| 0 <= k < items.len() && #[trigger] items[k].id != id implies r.contains(items[k]) by {
            if k < items.len() - 1 {
                assert(items[k] == init[k]);
                let j = choose|j: int| 0 <= j < w.len() && w[j] == init[k];
                assert(r[j] == w[j]);
            } else {
                assert(r[r.len() - 1] == items.last());
            }
        }
        assert forall|k: int| 0 <= k < r.len() implies #[trigger] r[k].id != id by {
            if k < w.len() {
                assert(r[k] == w[k]);
            }
        }
    }
}

/// Removing an id that no item has leaves the list as it was.
pub proof fn law_remove_absent_id_is_identity(items: Seq<Item>, id: i32)
    requires
        forall|k: int| 0 <= k < items.len() ==> #[trigger] items[k].id != id,
    ensures
        without_id(items, id) == items,
    decreases items.len(),
{
    if items.len() > 0 {
        let init = items.drop_last();
        assert forall|k: int| 0 <= k < init.len() implies #[trigger] init[k].id != id by {
            assert(init[k] == items[k]);
        }
        law_remove_absent_id_is_identity(init, id);
        assert(init.push(items.last()) =~= items);
    }
}

/// An update changes at most one item, the first with the id, and of that
/// item only the field it names; the length of the list stays the same.
pub proof fn law_update_changes_one_field(items: Seq<Item>, id: i32, upd: UpdateItem)
    ensures
        updated(items, id, upd).len() == items.len(),
        forall|k: int|
            0 <= k < items.len() && !is_first_with_id(items, id, k) ==> #[trigger] updated(items, id, upd)[k]
                == items[k],
        forall|k: int|
            #[trigger] is_first_with_id(items, id, k) ==> updated(items, id, upd)[k] == apply_update(items[k], upd),
        forall|k: int|
            0 <= k < items.len() ==> {
                let it = #[trigger] updated(items, id, upd)[k];
                &&& it.id == items[k].id
                &&& it.name == items[k].name
                &&& it.price == items[k].price
                &&& it.quantity == items[k].quantity
            },
{
    if exists|k: int| is_first_with_id(items, id, k) {
        let c = choose|k: int| is_first_with_id(items, id, k);
        assert forall|k: int| #[trigger] is_first_with_id(items, id, k) implies k == c by {
            if k < c {
                assert(items[k].id != id);
            } else if k > c {
                assert(items[c].id != id);
            }
        }
    }
}

/// Removing an id keeps exactly the items with another id, in the order
/// they had: the result is the list filtered by `id != id`.
pub proof fn law_remove_keeps_order(items: Seq<Item>, id: i32)
    ensures
        without_id(items, id) == items.filter(|it: Item| it.id != id),
    decreases items.len(),
{
    reveal(Seq::filter);
    if items.len() > 0 {
        law_remove_keeps_order(items.drop_last(), id);
    }
}

/// Removing an id from a list with one more item at the end: the item is
/// kept, after the others, unless it has the id.
pub proof fn law_remove_after_push(items: Seq<Item>, x: Item, id: i32)
    ensures
        without_id(items.push(x), id) == if x.id == id {
            without_id(items, id)
        } else {
            without_id(items, id).push(x)
        },
{
    assert(items.push(x).drop_last() =~= items);
}

/// Marking the first item with the id sets its picked-up flag to the value
/// asked for, whatever it was, and leaves its other fields as they were;
/// marking it again with the same value changes nothing more.
pub proof fn law_mark_sets_picked_up(items: Seq<Item>, id: i32, b: bool, k: int)
    requires
        is_first_with_id(items, id, k),
    ensures
        updated(items, id, UpdateItem::PickedUp { picked_up: b })[k] == (Item { picked_up: b, ..items[k] }),
        updated(items, id, UpdateItem::PickedUp { picked_up: b })[k].picked_up == b,
        updated(updated(items, id, UpdateItem::PickedUp { picked_up: b }), id, UpdateItem::PickedUp { picked_up: b })
            == updated(items, id, UpdateItem::PickedUp { picked_up: b }),
{
    let upd = UpdateItem::PickedUp { picked_up: b };
    law_update_changes_one_field(items, id, upd);
    let once = updated(items, id, upd);
    assert(is_first_with_id(once, id, k)) by {
        assert forall|j: int| 0 <= j < k implies #[trigger] once[j].id != id by {
            assert(!is_first_with_id(items, id, j));
            assert(once[j] == items[j]);
        }
    }
    law_update_changes_one_field(once, id, upd);
    assert(updated(once, id, upd) =~= once) by {
        assert forall|j: int| 0 <= j < once.len() implies #[trigger] updated(once, id, upd)[j] == once[j] by {
            if j == k {
                assert(updated(once, id, upd)[j] == apply_update(once[k], upd));
            } else {
                assert(!is_first_with_id(once, id, j)) by {
                    if is_first_with_id(once, id, j) {
                        if j < k {
                            assert(once[j].id != id);
                        } else {
                            assert(once[k].id != id);
                        }
                    }
                }
            }
        }
    }
}

/// Reordering the first item with the id sets its order to the one asked
/// for and leaves every other field, the picked-up flag among them, as it
/// was.
pub proof fn law_reorder_sets_only_order(items: Seq<Item>, id: i32, o: i32, k: int)
    requires
        is_first_with_id(items, id, k),
    ensures
        updated(items, id, UpdateItem::ItemOrder { item_order: o })[k] == (Item { item_order: o, ..items[k] }),
        updated(items, id, UpdateItem::ItemOrder { item_order: o })[k].picked_up == items[k].picked_up,
{
    law_update_changes_one_field(items, id, UpdateItem::ItemOrder { item_order: o });
}

} // verus!
