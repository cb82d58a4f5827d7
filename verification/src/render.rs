//! The text of a shopping list: the pages the client prints and the email
//! that is sent.

use vstd::prelude::*;
use crate::item::Item;
use crate::price::{
    decimal_mul, decimal_product, decimal_round_dp, decimal_text, format_decimal, lemma_display_fits, mul_in_range,
    decimal_gt, greater, lemma_pow10_bound, magnitude, max_mantissa, pow10, pow10_exec, price_text,
    product, product_fits,
    rounded, Price,
};
use crate::sort::{
    is_stable_sort, lemma_last_position, lemma_permutation_onto, lemma_remove_last, sort_by_item_order,
    stable_sort_witness,
};
use crate::text::{int_text, push_char, push_str};

verus! {

/// How `{}` writes a `bool`.
pub open spec fn bool_text(b: bool) -> Seq<char> {
    if b {
        "true"@
    } else {
        "false"@
    }
}

/// Every item has a price a `Decimal` can hold.
pub open spec fn all_wf(items: Seq<Item>) -> bool {
    forall|k: int| 0 <= k < items.len() ==> #[trigger] items[k].wf()
}

/// One row of a page: id, name, price, quantity, order and picked-up flag,
/// separated by `|`.
pub open spec fn page_row(it: Item) -> Seq<char> {
    int_text(it.id as int) + "|"@ + it.name@ + "|"@ + decimal_text(
        it.price.mantissa as int,
        it.price.scale as nat,
        it.price.scale as nat,
    ) + "|"@ + int_text(it.quantity as int) + "|"@ + int_text(it.item_order as int) + "|"@
        + bool_text(it.picked_up) + "\n"@
}

/// The rows of `items`, in order.
pub open spec fn page_rows(items: Seq<Item>) -> Seq<char>
    decreases items.len(),
{
    if items.len() == 0 {
        Seq::empty()
    } else {
        page_rows(items.drop_last()) + page_row(items.last())
    }
}

/// A page: the header line, the column names, one row per item of
/// `sorted`, and the closing line.
pub open spec fn page_text(header: Seq<char>, sorted: Seq<Item>) -> Seq<char> {
    header + "\n"@ + "Id|Name|Price|Quantity|Order|Picked Up\n"@ + page_rows(sorted)
        + "==========End of List==========\n"@
}

/// Appends the `{}` text of a bool.
fn push_bool(s: &mut String, b: bool)
    ensures
        final(s)@ == old(s)@ + bool_text(b),
{
    if b {
        push_str(s, "true");
    } else {
        push_str(s, "false");
    }
}

/// Appends the row of `it`.
fn push_page_row(out: &mut String, it: &Item)
    requires
        it.wf(),
    ensures
        final(out)@ == old(out)@ + page_row(*it),
{
    let mut r = crate::text::int_to_string(it.id as i64);
    push_str(&mut r, "|");
    push_str(&mut r, it.name.as_str());
    push_str(&mut r, "|");
    let p = price_text(&it.price);
    push_str(&mut r, p.as_str());
    push_str(&mut r, "|");
    let q = crate::text::int_to_string(it.quantity as i64);
    push_str(&mut r, q.as_str());
    push_str(&mut r, "|");
    let o = crate::text::int_to_string(it.item_order as i64);
    push_str(&mut r, o.as_str());
    push_str(&mut r, "|");
    push_bool(&mut r, it.picked_up);
    push_str(&mut r, "\n");
    assert(r@ == page_row(*it));
    push_str(out, r.as_str());
}

/// A stable sort keeps the prices a `Decimal` can hold.
proof fn lemma_sorted_wf(items: Seq<Item>, sorted: Seq<Item>)
    requires
        all_wf(items),
        is_stable_sort(items, sorted),
    ensures
        all_wf(sorted),
{
    let perm = choose|perm: Seq<int>| crate::sort::stable_sort_witness(items, sorted, perm);
    assert forall|k: int| 0 <= k < sorted.len() implies #[trigger] sorted[k].wf() by {
        assert(sorted[k] == items[perm[k]]);
    }
}

/// The page with header `header` listing `items` ordered by `item_order`
/// (items of equal order in the order they came).
pub fn render_items(header: &str, items: &[Item]) -> (res: String)
    requires
        all_wf(items@),
    ensures
        exists|sorted: Seq<Item>| is_stable_sort(items@, sorted) && res@ == page_text(header@, sorted),
{
    let sorted = sort_by_item_order(items);
    proof {
        lemma_sorted_wf(items@, sorted@);
    }
    let mut out = String::new();
    push_str(&mut out, header);
    push_char(&mut out, '\n');
    push_str(&mut out, "Id|Name|Price|Quantity|Order|Picked Up\n");
    let ghost start = out@;
    let n = sorted.len();
    let mut i: usize = 0;
    while i < n
        invariant
            n == sorted@.len(),
            i <= n,
            all_wf(sorted@),
            out@ == start + page_rows(sorted@.subrange(0, i as int)),
        decreases n - i,
    {
        push_page_row(&mut out, &sorted[i]);
        assert(sorted@.subrange(0, i + 1).drop_last() =~= sorted@.subrange(0, i as int));
        i = i + 1;
    }
    push_str(&mut out, "==========End of List==========\n");
    assert(sorted@.subrange(0, n as int) =~= sorted@);
    assert(seq!['\n'] =~= "\n"@) by {
        reveal_strlit("\n");
    }
    assert(out@ =~= page_text(header@, sorted@));
    out
}

/// Something the client can print: a text made of the page's items in
/// item order.
pub trait Page {
    /// The items on the page.
    spec fn page_items(&self) -> Seq<Item>;

    /// The text of the page when its items, sorted, are `sorted`.
    spec fn text(&self, sorted: Seq<Item>) -> Seq<char>;

    /// What the page needs to be rendered.
    spec fn can_render(&self) -> bool;

    /// The text of the page: its items stably sorted by item order, then
    /// written out (see `text`).
    fn render(&self) -> (res: String)
        requires
            self.can_render(),
        ensures
            exists|sorted: Seq<Item>|
                #[trigger] is_stable_sort(self.page_items(), sorted) && res@ == self.text(sorted),
    ;
}

/// The header of the plain list.
pub open spec fn list_header() -> Seq<char> {
    "\n========Shopping List========"@
}

/// The header of a list printed after a change.
pub open spec fn updated_header() -> Seq<char> {
    "\n========Updated Shopping List========"@
}

/// The header of the plain list, as text.
fn list_header_text() -> (res: &'static str)
    ensures
        res@ == list_header(),
{
    "\n========Shopping List========"
}

/// The header of a list printed after a change, as text.
fn updated_header_text() -> (res: &'static str)
    ensures
        res@ == updated_header(),
{
    "\n========Updated Shopping List========"
}

/// The page that the `list` command prints.
pub struct ListPage {
    pub items: Vec<Item>,
}

impl ListPage {
    /// The page of `items`.
    pub fn new(items: Vec<Item>) -> (res: Self)
        ensures
            res.items@ == items@,
    {
        ListPage { items }
    }
}

impl Page for ListPage {
    open spec fn page_items(&self) -> Seq<Item> {
        self.items@
    }

    open spec fn text(&self, sorted: Seq<Item>) -> Seq<char> {
        page_text(list_header(), sorted)
    }

    open spec fn can_render(&self) -> bool {
        all_wf(self.items@)
    }

    fn render(&self) -> (res: String) {
        assert(self.page_items() == self.items@);
        render_items(list_header_text(), self.items.as_slice())
    }
}

/// The page printed after an item is added.
pub struct AddItemPage {
    pub items: Vec<Item>,
}

impl AddItemPage {
    /// The page of `items`.
    pub fn new(items: Vec<Item>) -> (res: Self)
        ensures
            res.items@ == items@,
    {
        AddItemPage { items }
    }
}

impl Page for AddItemPage {
    open spec fn page_items(&self) -> Seq<Item> {
        self.items@
    }

    open spec fn text(&self, sorted: Seq<Item>) -> Seq<char> {
        page_text(updated_header(), sorted)
    }

    open spec fn can_render(&self) -> bool {
        all_wf(self.items@)
    }

    fn render(&self) -> (res: String) {
        assert(self.page_items() == self.items@);
        render_items(updated_header_text(), self.items.as_slice())
    }
}

/// The page printed after an item is taken off.
pub struct RemoveItemPage {
    pub items: Vec<Item>,
}

impl RemoveItemPage {
    /// The page of `items`.
    pub fn new(items: Vec<Item>) -> (res: Self)
        ensures
            res.items@ == items@,
    {
        RemoveItemPage { items }
    }
}

impl Page for RemoveItemPage {
    open spec fn page_items(&self) -> Seq<Item> {
        self.items@
    }

    open spec fn text(&self, sorted: Seq<Item>) -> Seq<char> {
        page_text(updated_header(), sorted)
    }

    open spec fn can_render(&self) -> bool {
        all_wf(self.items@)
    }

    fn render(&self) -> (res: String) {
        assert(self.page_items() == self.items@);
        render_items(updated_header_text(), self.items.as_slice())
    }
}

/// The page printed after an item is marked picked up or not.
pub struct MarkedItemPage {
    pub items: Vec<Item>,
}

impl MarkedItemPage {
    /// The page of `items`.
    pub fn new(items: Vec<Item>) -> (res: Self)
        ensures
            res.items@ == items@,
    {
        MarkedItemPage { items }
    }
}

impl Page for MarkedItemPage {
    open spec fn page_items(&self) -> Seq<Item> {
        self.items@
    }

    open spec fn text(&self, sorted: Seq<Item>) -> Seq<char> {
        page_text(updated_header(), sorted)
    }

    open spec fn can_render(&self) -> bool {
        all_wf(self.items@)
    }

    fn render(&self) -> (res: String) {
        assert(self.page_items() == self.items@);
        render_items(updated_header_text(), self.items.as_slice())
    }
}

/// The page printed after an item is given a new order.
pub struct OrderItemPage {
    pub items: Vec<Item>,
}

impl OrderItemPage {
    /// The page of `items`.
    pub fn new(items: Vec<Item>) -> (res: Self)
        ensures
            res.items@ == items@,
    {
        OrderItemPage { items }
    }
}

impl Page for OrderItemPage {
    open spec fn page_items(&self) -> Seq<Item> {
        self.items@
    }

    open spec fn text(&self, sorted: Seq<Item>) -> Seq<char> {
        page_text(updated_header(), sorted)
    }

    open spec fn can_render(&self) -> bool {
        all_wf(self.items@)
    }

    fn render(&self) -> (res: String) {
        assert(self.page_items() == self.items@);
        render_items(updated_header_text(), self.items.as_slice())
    }
}

/// The quantity of `it` as a decimal (scale 0), as `Decimal::from` makes it.
pub open spec fn quantity_price(it: Item) -> Price {
    Price { mantissa: it.quantity as i128, scale: 0 }
}

/// The subtotal of `it`: quantity times price as `rust_decimal` multiplies
/// them, rounded to two places.
pub open spec fn subtotal(it: Item) -> Price {
    rounded(decimal_product(quantity_price(it), it.price), 2)
}

/// `rust_decimal` can multiply the quantity of `it` by its price without
/// overflowing (see `mul_in_range`).
pub open spec fn subtotal_fits(it: Item) -> bool {
    mul_in_range(quantity_price(it), it.price)
}

/// Whether `rust_decimal` can multiply the quantity of `it` by its price
/// (see `subtotal_fits`).
pub fn subtotal_in_range(it: &Item) -> (res: bool)
    requires
        it.wf(),
    ensures
        res == subtotal_fits(*it),
{
    let q = it.quantity as i128;
    let m = it.price.mantissa;
    assert(-170141183460469231731687303715884105727 <= q * m <= 170141183460469231731687303715884105727)
        by (nonlinear_arith)
        requires
            -2147483648 <= q <= 2147483647,
            -79228162514264337593543950335 <= m <= 79228162514264337593543950335,
    ;
    let p = q * m;
    let mag: u128 = if p < 0 {
        (-p) as u128
    } else {
        p as u128
    };
    let d = pow10_exec(it.price.scale);
    proof {
        lemma_pow10_bound(it.price.scale as nat);
    }
    let whole = mag / d;
    let r = mag % d;
    let rounded_whole = if 2 * r > d || (2 * r == d && whole % 2 == 1) {
        whole + 1
    } else {
        whole
    };
    assert(quantity_price(*it).mantissa * it.price.mantissa == p);
    assert(magnitude(p as int) == mag);
    assert((quantity_price(*it).scale + it.price.scale) as nat == it.price.scale as nat);
    rounded_whole <= 79228162514264337593543950335u128
}

/// One row of the email: name, quantity, price and subtotal, both amounts
/// in pounds with two decimals.
pub open spec fn email_row(it: Item) -> Seq<char> {
    it.name@ + " | "@ + int_text(it.quantity as int) + " | \u{a3}"@ + decimal_text(
        it.price.mantissa as int,
        it.price.scale as nat,
        2,
    ) + " | \u{a3}"@ + decimal_text(subtotal(it).mantissa as int, subtotal(it).scale as nat, 2)
        + "\n"@
}

/// The rows of the email, in order.
pub open spec fn email_rows(items: Seq<Item>) -> Seq<char>
    decreases items.len(),
{
    if items.len() == 0 {
        Seq::empty()
    } else {
        email_rows(items.drop_last()) + email_row(items.last())
    }
}

/// The email of the list `sorted`.
pub open spec fn email_text(sorted: Seq<Item>) -> Seq<char> {
    "Your Shopping List\n"@ + "====================\n\n"@ + "Item | Qty | Price | Subtotal\n"@
        + "--------------------------------\n"@ + email_rows(sorted)
        + "\nThanks for using the Shopping CLI!\n"@
}

/// The subtotal of `it`: its quantity times its price, rounded half to even
/// at two places (see `subtotal`).
pub fn item_subtotal(it: &Item) -> (res: Price)
    requires
        it.wf(),
        subtotal_fits(*it),
    ensures
        res == subtotal(*it),
        res.wf(),
        product_fits(quantity_price(*it), it.price) ==> res == rounded(
            product(quantity_price(*it), it.price),
            2,
        ),
{
    let qty = Price { mantissa: it.quantity as i128, scale: 0 };
    let prod = decimal_mul(&qty, &it.price);
    decimal_round_dp(&prod, 2)
}

/// Appends the email row of `it`.
fn push_email_row(out: &mut String, it: &Item)
    requires
        it.wf(),
        subtotal_fits(*it),
    ensures
        final(out)@ == old(out)@ + email_row(*it),
{
    let sub = item_subtotal(it);
    let mut r = it.name.clone();
    push_str(&mut r, " | ");
    let q = crate::text::int_to_string(it.quantity as i64);
    push_str(&mut r, q.as_str());
    push_str(&mut r, " | \u{a3}");
    proof {
        lemma_display_fits(it.price, 2);
        lemma_display_fits(sub, 2);
    }
    let p = format_decimal(&it.price, 2);
    push_str(&mut r, p.as_str());
    push_str(&mut r, " | \u{a3}");
    let st = format_decimal(&sub, 2);
    push_str(&mut r, st.as_str());
    push_str(&mut r, "\n");
    assert(r@ == email_row(*it));
    push_str(out, r.as_str());
}

/// The email of a shopping list: a header, one row per item ordered by
/// `item_order` (items of equal order in the order they came) with its
/// subtotal, and a closing line.
pub fn render_email(items: &[Item]) -> (res: String)
    requires
        all_wf(items@),
        forall|k: int| 0 <= k < items@.len() ==> subtotal_fits(#[trigger] items@[k]),
    ensures
        exists|sorted: Seq<Item>| is_stable_sort(items@, sorted) && res@ == email_text(sorted),
{
    let sorted = sort_by_item_order(items);
    proof {
        lemma_sorted_wf(items@, sorted@);
        let perm = choose|perm: Seq<int>| crate::sort::stable_sort_witness(items@, sorted@, perm);
        assert forall|k: int| 0 <= k < sorted@.len() implies subtotal_fits(#[trigger] sorted@[k]) by {
            assert(sorted@[k] == items@[perm[k]]);
        }
    }
    let mut out = String::new();
    push_str(&mut out, "Your Shopping List\n");
    push_str(&mut out, "====================\n\n");
    push_str(&mut out, "Item | Qty | Price | Subtotal\n");
    push_str(&mut out, "--------------------------------\n");
    let ghost start = out@;
    let n = sorted.len();
    let mut i: usize = 0;
    while i < n
        invariant
            n == sorted@.len(),
            i <= n,
            all_wf(sorted@),
            forall|k: int| 0 <= k < sorted@.len() ==> subtotal_fits(#[trigger] sorted@[k]),
            out@ == start + email_rows(sorted@.subrange(0, i as int)),
        decreases n - i,
    {
        push_email_row(&mut out, &sorted[i]);
        assert(sorted@.subrange(0, i + 1).drop_last() =~= sorted@.subrange(0, i as int));
        i = i + 1;
    }
    push_str(&mut out, "\nThanks for using the Shopping CLI!\n");
    assert(sorted@.subrange(0, n as int) =~= sorted@);
    assert(out@ =~= email_text(sorted@));
    out
}

/// Every item can be multiplied out by `rust_decimal`.
pub open spec fn all_subtotals_fit(items: Seq<Item>) -> bool {
    forall|k: int| 0 <= k < items.len() ==> subtotal_fits(#[trigger] items[k])
}

/// A stable sort keeps the subtotals that fit.
proof fn lemma_sorted_subtotals_fit(items: Seq<Item>, sorted: Seq<Item>)
    requires
        all_subtotals_fit(items),
        is_stable_sort(items, sorted),
    ensures
        all_subtotals_fit(sorted),
{
    let perm = choose|perm: Seq<int>| crate::sort::stable_sort_witness(items, sorted, perm);
    assert forall|k: int| 0 <= k < sorted.len() implies subtotal_fits(#[trigger] sorted[k]) by {
        assert(sorted[k] == items[perm[k]]);
    }
}

/// Whether every item of `items` has a price a `Decimal` can hold.
pub fn prices_in_range(items: &[Item]) -> (res: bool)
    ensures
        res == all_wf(items@),
{
    let n = items.len();
    let mut i: usize = 0;
    while i < n
        invariant
            n == items@.len(),
            i <= n,
            forall|k: int| 0 <= k < i ==> (#[trigger] items@[k]).wf(),
        decreases n - i,
    {
        let p = items[i].price;
        if !(-79228162514264337593543950335i128 <= p.mantissa && p.mantissa <= 79228162514264337593543950335i128 && p.scale <= 28) {
            assert(!items@[i as int].wf());
            return false;
        }
        i = i + 1;
    }
    true
}

/// Whether every item of `items` has a price a `Decimal` can hold and a
/// subtotal `rust_decimal` can compute.
pub fn subtotals_in_range(items: &[Item]) -> (res: bool)
    ensures
        res == (all_wf(items@) && all_subtotals_fit(items@)),
{
    let n = items.len();
    let mut i: usize = 0;
    while i < n
        invariant
            n == items@.len(),
            i <= n,
            forall|k: int| 0 <= k < i ==> (#[trigger] items@[k]).wf() && subtotal_fits(items@[k]),
        decreases n - i,
    {
        let it = &items[i];
        let p = it.price;
        if !(-79228162514264337593543950335i128 <= p.mantissa && p.mantissa <= 79228162514264337593543950335i128 && p.scale <= 28) {
            assert(!items@[i as int].wf());
            return false;
        }
        if !subtotal_in_range(it) {
            assert(!subtotal_fits(items@[i as int]));
            return false;
        }
        assert(items@[i as int].wf() && subtotal_fits(items@[i as int]));
        i = i + 1;
    }
    true
}

/// The subtotal of `it` in hundredths (a subtotal has at most two places).
pub open spec fn subtotal_cents(it: Item) -> int {
    subtotal(it).mantissa * pow10((2 - subtotal(it).scale) as nat)
}

/// The sum of the subtotals of `items`, in hundredths.
pub open spec fn total_cents(items: Seq<Item>) -> int
    decreases items.len(),
{
    if items.len() == 0 {
        0
    } else {
        total_cents(items.drop_last()) + subtotal_cents(items.last())
    }
}

/// The sum of the magnitudes of the subtotals of `items`, in hundredths;
/// every partial sum of the total is at most this.
pub open spec fn total_size(items: Seq<Item>) -> nat
    decreases items.len(),
{
    if items.len() == 0 {
        0
    } else {
        total_size(items.drop_last()) + magnitude(subtotal_cents(items.last()))
    }
}

/// The total is over `limit`.
pub open spec fn over_limit(total: int, limit: Price) -> bool {
    greater(Price { mantissa: total as i128, scale: 2 }, limit)
}

/// The alert of the total page: when there is a limit and the total is over
/// it, a line saying so with the limit in pounds and two decimals.
pub open spec fn limit_alert(total: int, limit: Option<Price>) -> Seq<char> {
    match limit {
        Some(l) => if over_limit(total, l) {
            "Over your limit of \u{a3}"@ + decimal_text(l.mantissa as int, l.scale as nat, 2) + "!\n"@
        } else {
            Seq::empty()
        },
        None => Seq::empty(),
    }
}

/// The page of the `total` command: the rows of the email, the total of
/// their subtotals, and the alert when it is over the limit.
pub open spec fn total_text(sorted: Seq<Item>, limit: Option<Price>) -> Seq<char> {
    let total = total_cents(sorted);
    "\n========Shopping Total========\n"@ + "Item | Qty | Price | Subtotal\n"@ + email_rows(sorted)
        + "Total: \u{a3}"@ + decimal_text(total, 2, 2) + "\n"@ + limit_alert(total, limit)
}

/// Taking the item at `pos` out of a list takes its subtotal off the total.
proof fn lemma_total_remove(items: Seq<Item>, pos: int)
    requires
        0 <= pos < items.len(),
    ensures
        total_cents(items) == total_cents(items.remove(pos)) + subtotal_cents(items[pos]),
    decreases items.len(),
{
    if pos < items.len() - 1 {
        lemma_total_remove(items.drop_last(), pos);
        assert(items.drop_last().remove(pos) =~= items.remove(pos).drop_last());
    } else {
        assert(items.remove(pos) =~= items.drop_last());
    }
}

/// The total of a list does not depend on its order: the total of the rows
/// of a page, sorted by item order, is the total of the list as given.
pub proof fn law_total_independent_of_order(items: Seq<Item>, sorted: Seq<Item>)
    requires
        is_stable_sort(items, sorted),
    ensures
        total_cents(sorted) == total_cents(items),
    decreases items.len(),
{
    let perm = choose|p: Seq<int>| stable_sort_witness(items, sorted, p);
    let n = items.len();
    if n > 0 {
        lemma_permutation_onto(perm, n, n - 1);
        let pos = choose|k: int| 0 <= k < n && perm[k] == n - 1;
        lemma_remove_last(items, sorted, perm, pos);
        lemma_last_position(items, sorted, perm, pos);
        law_total_independent_of_order(items.drop_last(), sorted.remove(pos));
        lemma_total_remove(sorted, pos);
    }
}

/// A prefix of a list has no greater size.
proof fn lemma_total_size_prefix(items: Seq<Item>, i: int)
    requires
        0 <= i <= items.len(),
    ensures
        total_size(items.subrange(0, i)) <= total_size(items),
    decreases items.len() - i,
{
    if i < items.len() {
        lemma_total_size_prefix(items, i + 1);
        assert(items.subrange(0, i + 1).drop_last() =~= items.subrange(0, i));
    } else {
        assert(items.subrange(0, i) =~= items);
    }
}

/// The page of the `total` command.
pub struct TotalPage {
    pub items: Vec<Item>,
    pub limit: Option<Price>,
}

impl TotalPage {
    /// The total page of `items` against `limit`.
    pub fn new(items: Vec<Item>, limit: Option<Price>) -> (res: Self)
        ensures
            res.items@ == items@,
            res.limit == limit,
    {
        TotalPage { items, limit }
    }

    /// What the total page needs: prices and subtotals `rust_decimal` can
    /// hold, a total that fits a `Decimal`, and a limit that is one.
    pub open spec fn fits(&self) -> bool {
        &&& all_wf(self.items@)
        &&& all_subtotals_fit(self.items@)
        &&& total_size(self.items@) <= max_mantissa()
        &&& (self.limit matches Some(l) ==> l.wf())
    }

    /// Whether the page can be rendered (see `fits`).
    pub fn can_render_now(&self) -> (res: bool)
        ensures
            res == self.fits(),
    {
        match self.limit {
            Some(l) => {
                if !(-79228162514264337593543950335i128 <= l.mantissa && l.mantissa <= 79228162514264337593543950335i128 && l.scale <= 28) {
                    return false;
                }
            },
            None => {},
        }
        if !subtotals_in_range(self.items.as_slice()) {
            return false;
        }
        let n = self.items.len();
        let mut size: u128 = 0;
        let mut i: usize = 0;
        while i < n
            invariant
                n == self.items@.len(),
                i <= n,
                all_wf(self.items@),
                all_subtotals_fit(self.items@),
                size == total_size(self.items@.subrange(0, i as int)),
                size <= 79228162514264337593543950335,
            decreases n - i,
        {
            let sub = item_subtotal(&self.items[i]);
            let c = sub_cents(&sub);
            let m: u128 = if c < 0 { (-c) as u128 } else { c as u128 };
            assert(self.items@.subrange(0, i + 1).drop_last() =~= self.items@.subrange(0, i as int));
            if m > 79228162514264337593543950335u128 - size {
                proof {
                    lemma_total_size_prefix(self.items@, i + 1);
                }
                return false;
            }
            size = size + m;
            i = i + 1;
        }
        assert(self.items@.subrange(0, n as int) =~= self.items@);
        true
    }
}

/// The subtotal `sub` (at most two places) in hundredths.
fn sub_cents(sub: &Price) -> (res: i128)
    requires
        sub.wf(),
        sub.scale <= 2,
    ensures
        res == sub.mantissa * pow10((2 - sub.scale) as nat),
        -max_mantissa() * 100 <= res <= max_mantissa() * 100,
{
    reveal_with_fuel(pow10, 3);
    if sub.scale == 0 {
        sub.mantissa * 100
    } else if sub.scale == 1 {
        sub.mantissa * 10
    } else {
        sub.mantissa
    }
}

/// The subtotal of an item has at most two places.
proof fn lemma_subtotal_scale(it: Item)
    ensures
        subtotal(it).scale <= 2,
{
}

impl Page for TotalPage {
    open spec fn page_items(&self) -> Seq<Item> {
        self.items@
    }

    open spec fn text(&self, sorted: Seq<Item>) -> Seq<char> {
        total_text(sorted, self.limit)
    }

    open spec fn can_render(&self) -> bool {
        self.fits()
    }

    fn render(&self) -> (res: String) {
        let n = self.items.len();
        let mut total: i128 = 0;
        let mut i: usize = 0;
        while i < n
            invariant
                n == self.items@.len(),
                i <= n,
                self.fits(),
                total == total_cents(self.items@.subrange(0, i as int)),
                magnitude(total as int) <= total_size(self.items@.subrange(0, i as int)),
            decreases n - i,
        {
            proof {
                lemma_total_size_prefix(self.items@, i + 1);
                lemma_subtotal_scale(self.items@[i as int]);
            }
            let sub = item_subtotal(&self.items[i]);
            let c = sub_cents(&sub);
            assert(self.items@.subrange(0, i + 1).drop_last() =~= self.items@.subrange(0, i as int));
            assert(self.items@.subrange(0, i + 1).last() == self.items@[i as int]);
            total = total + c;
            i = i + 1;
        }
        assert(self.items@.subrange(0, n as int) =~= self.items@);
        let sorted = sort_by_item_order(self.items.as_slice());
        proof {
            lemma_sorted_wf(self.items@, sorted@);
            lemma_sorted_subtotals_fit(self.items@, sorted@);
        }
        let mut out = String::new();
        push_str(&mut out, "\n========Shopping Total========\n");
        push_str(&mut out, "Item | Qty | Price | Subtotal\n");
        let ghost start = out@;
        let mut k: usize = 0;
        while k < n
            invariant
                n == sorted@.len(),
                k <= n,
                all_wf(sorted@),
                all_subtotals_fit(sorted@),
                out@ == start + email_rows(sorted@.subrange(0, k as int)),
            decreases n - k,
        {
            push_email_row(&mut out, &sorted[k]);
            assert(sorted@.subrange(0, k + 1).drop_last() =~= sorted@.subrange(0, k as int));
            k = k + 1;
        }
        assert(sorted@.subrange(0, n as int) =~= sorted@);
        let total_price = Price { mantissa: total, scale: 2 };
        push_str(&mut out, "Total: \u{a3}");
        proof {
            lemma_display_fits(total_price, 2);
        }
        let t = format_decimal(&total_price, 2);
        push_str(&mut out, t.as_str());
        push_str(&mut out, "\n");
        let ghost before_alert = out@;
        match self.limit {
            Some(l) => {
                if decimal_gt(&total_price, &l) {
                    push_str(&mut out, "Over your limit of \u{a3}");
                    proof {
                        lemma_display_fits(l, 2);
                    }
                    let ls = format_decimal(&l, 2);
                    push_str(&mut out, ls.as_str());
                    push_str(&mut out, "!\n");
                }
            },
            None => {},
        }
        assert(out@ =~= before_alert + limit_alert(total as int, self.limit));
        proof {
            law_total_independent_of_order(self.items@, sorted@);
        }
        assert(out@ =~= total_text(sorted@, self.limit));
        assert(self.page_items() == self.items@);
        out
    }
}

/// The page of the `email` command: the address (none when not given) and
/// the items whose email is sent.
pub struct EmailPage {
    pub items: Vec<Item>,
    pub address: Option<String>,
}

impl EmailPage {
    /// The email of `items` to `address`.
    pub fn new(items: Vec<Item>, address: Option<String>) -> (res: Self)
        ensures
            res.items@ == items@,
            res.address == address,
    {
        EmailPage { items, address }
    }
}

impl Page for EmailPage {
    open spec fn page_items(&self) -> Seq<Item> {
        self.items@
    }

    open spec fn text(&self, sorted: Seq<Item>) -> Seq<char> {
        email_text(sorted)
    }

    open spec fn can_render(&self) -> bool {
        all_wf(self.items@) && all_subtotals_fit(self.items@)
    }

    /// The body of the email (see `render_email`).
    fn render(&self) -> (res: String) {
        assert(self.page_items() == self.items@);
        render_email(self.items.as_slice())
    }
}

/// The list page prints its items stably sorted by item order: given the
/// stable sort of its items, its text is the list page of exactly those
/// rows, in that order, whose orders never decrease.
pub proof fn law_list_page_rows_sorted(p: ListPage, sorted: Seq<Item>)
    requires
        is_stable_sort(p.items@, sorted),
    ensures
        p.text(sorted) == page_text(list_header(), sorted),
        forall|a: int, b: int| 0 <= a < b < sorted.len() ==> sorted[a].item_order <= sorted[b].item_order,
{
}

/// The page printed after a change shows the updated list of its items
/// stably sorted by item order.
pub proof fn law_add_page_rows_sorted(p: AddItemPage, sorted: Seq<Item>)
    requires
        is_stable_sort(p.items@, sorted),
    ensures
        p.text(sorted) == page_text(updated_header(), sorted),
{
}

/// The page printed after a change shows the updated list of its items
/// stably sorted by item order.
pub proof fn law_remove_page_rows_sorted(p: RemoveItemPage, sorted: Seq<Item>)
    requires
        is_stable_sort(p.items@, sorted),
    ensures
        p.text(sorted) == page_text(updated_header(), sorted),
{
}

/// The page printed after a change shows the updated list of its items
/// stably sorted by item order.
pub proof fn law_marked_page_rows_sorted(p: MarkedItemPage, sorted: Seq<Item>)
    requires
        is_stable_sort(p.items@, sorted),
    ensures
        p.text(sorted) == page_text(updated_header(), sorted),
{
}

/// The page printed after a change shows the updated list of its items
/// stably sorted by item order.
pub proof fn law_order_page_rows_sorted(p: OrderItemPage, sorted: Seq<Item>)
    requires
        is_stable_sort(p.items@, sorted),
    ensures
        p.text(sorted) == page_text(updated_header(), sorted),
{
}

/// The total page itemises its items stably sorted by item order and
/// totals them against its limit.
pub proof fn law_total_page_rows_sorted(p: TotalPage, sorted: Seq<Item>)
    requires
        is_stable_sort(p.items@, sorted),
    ensures
        p.text(sorted) == total_text(sorted, p.limit),
{
}

/// The email page sends the email of its items stably sorted by item order.
pub proof fn law_email_page_rows_sorted(p: EmailPage, sorted: Seq<Item>)
    requires
        is_stable_sort(p.items@, sorted),
    ensures
        p.text(sorted) == email_text(sorted),
{
}

/// The total of a list is the sum of the subtotals of all its items, in
/// hundredths: nothing for an empty list, and one more item adds its
/// subtotal (quantity times price, rounded to two places), whether or not
/// it is picked up.
pub proof fn law_total_is_sum_of_subtotals(items: Seq<Item>, it: Item, b: bool)
    ensures
        total_cents(Seq::<Item>::empty()) == 0,
        total_cents(items.push(it)) == total_cents(items) + subtotal(it).mantissa * pow10(
            (2 - subtotal(it).scale) as nat,
        ),
        total_cents(items.push(Item { picked_up: b, ..it })) == total_cents(items.push(it)),
{
    assert(items.push(it).drop_last() =~= items);
    assert(items.push(Item { picked_up: b, ..it }).drop_last() =~= items);
}

/// Ticking or unticking items does not change the total: the total of a
/// list is that of the same list with every picked-up flag set to `b`.
pub proof fn law_total_ignores_picked_up(items: Seq<Item>, b: bool)
    ensures
        total_cents(items.map_values(|it: Item| Item { picked_up: b, ..it })) == total_cents(items),
    decreases items.len(),
{
    let f = |it: Item| Item { picked_up: b, ..it };
    if items.len() > 0 {
        law_total_ignores_picked_up(items.drop_last(), b);
        assert(items.map_values(f).drop_last() =~= items.drop_last().map_values(f));
    }
}

} // verus!
