//! What a repository holds, as a mathematical value: the menu and the orders
//! in the order in which they were stored.

use crate::domain::{CompleteOrderView, MenuItemView, Order, OrderId};
use vstd::prelude::*;

verus! {

/// The test that picks the orders of `table_number`.
pub open spec fn of_table(table_number: i32) -> spec_fn(Order) -> bool {
    |o: Order| o.table_number == table_number
}

/// The test that picks the orders for `menu_item_id` at `table_number`.
pub open spec fn for_item(menu_item_id: i32, table_number: i32) -> spec_fn(Order) -> bool {
    |o: Order| o.is_for(menu_item_id, table_number)
}

/// The contents of a repository.
pub struct OrderBook {
    /// The menu, from the identifier of a menu item to the item.
    pub menu: Map<i32, MenuItemView>,
    /// The stored orders, oldest insertion first.
    pub orders: Seq<Order>,
}

impl OrderBook {
    /// A book with no menu and no orders.
    pub open spec fn empty() -> OrderBook {
        OrderBook { menu: Map::empty(), orders: Seq::empty() }
    }

    /// Every menu item is filed under its own identifier, every order refers
    /// to a menu item, and no two orders share an identifier.
    pub open spec fn wf(self) -> bool {
        &&& forall|k: i32| #[trigger] self.menu.contains_key(k) ==> self.menu[k].id == k
        &&& forall|i: int|
            0 <= i < self.orders.len() ==> self.menu.contains_key(
                #[trigger] self.orders[i].menu_item_id,
            )
        &&& forall|i: int, j: int|
            0 <= i < j < self.orders.len() ==> (#[trigger] self.orders[i]).id
                != (#[trigger] self.orders[j]).id
    }

    /// Whether some stored order has the identifier `id`.
    pub open spec fn has_order_id(self, id: OrderId) -> bool {
        exists|i: int| 0 <= i < self.orders.len() && (#[trigger] self.orders[i]).id == id
    }

    /// Whether `order` can be stored: its menu item is on the menu and its
    /// identifier is not in use.
    pub open spec fn accepts(self, order: Order) -> bool {
        self.menu.contains_key(order.menu_item_id) && !self.has_order_id(order.id)
    }

    /// The book with `order` stored after the others.
    pub open spec fn with_order(self, order: Order) -> OrderBook {
        OrderBook { orders: self.orders.push(order), ..self }
    }

    /// The book with `item` on the menu.
    pub open spec fn with_menu_item(self, item: MenuItemView) -> OrderBook {
        OrderBook { menu: self.menu.insert(item.id, item), ..self }
    }

    /// `order` joined with its menu item.
    pub open spec fn row(self, order: Order) -> CompleteOrderView {
        CompleteOrderView {
            order_id: order.id,
            table_number: order.table_number,
            menu_item_id: order.menu_item_id,
            created_at: order.created_at,
            item_name: self.menu[order.menu_item_id].item_name,
            cooking_time: self.menu[order.menu_item_id].cooking_time,
        }
    }

    /// The orders of `table_number`, oldest insertion first.
    pub open spec fn orders_of_table(self, table_number: i32) -> Seq<Order> {
        self.orders.filter(of_table(table_number))
    }

    /// Each of `orders` joined with its menu item, in the same order.
    pub open spec fn join(self, orders: Seq<Order>) -> Seq<CompleteOrderView> {
        orders.map_values(|o: Order| self.row(o))
    }

    /// The orders of `table_number`, each joined with its menu item.
    pub open spec fn rows_of_table(self, table_number: i32) -> Seq<CompleteOrderView> {
        self.join(self.orders_of_table(table_number))
    }

    /// The orders for `menu_item_id` at `table_number`, oldest insertion first.
    pub open spec fn orders_for(self, menu_item_id: i32, table_number: i32) -> Seq<Order> {
        self.orders.filter(for_item(menu_item_id, table_number))
    }

    /// Whether some stored order is for `menu_item_id` at `table_number`.
    pub open spec fn has_order_for(self, menu_item_id: i32, table_number: i32) -> bool {
        exists|i: int|
            0 <= i < self.orders.len() && (#[trigger] self.orders[i]).is_for(
                menu_item_id,
                table_number,
            )
    }

    /// Whether the order at position `i` is the latest for `menu_item_id` at
    /// `table_number`: it is one of them, and none of them is newer.
    pub open spec fn is_latest(self, i: int, menu_item_id: i32, table_number: i32) -> bool {
        &&& 0 <= i < self.orders.len()
        &&& self.orders[i].is_for(menu_item_id, table_number)
        &&& forall|j: int|
            0 <= j < self.orders.len() && (#[trigger] self.orders[j]).is_for(
                menu_item_id,
                table_number,
            ) ==> !self.orders[j].newer_than(self.orders[i])
    }

    /// The position of the latest order for `menu_item_id` at `table_number`,
    /// if there is any such order.
    pub open spec fn latest(self, menu_item_id: i32, table_number: i32) -> Option<int> {
        if self.has_order_for(menu_item_id, table_number) {
            Some(choose|i: int| self.is_latest(i, menu_item_id, table_number))
        } else {
            None
        }
    }

    /// The latest order for `menu_item_id` at `table_number`, joined with its
    /// menu item.
    pub open spec fn latest_row(self, menu_item_id: i32, table_number: i32) -> Option<
        CompleteOrderView,
    > {
        match self.latest(menu_item_id, table_number) {
            Some(i) => Some(self.row(self.orders[i])),
            None => None,
        }
    }

    /// The book without the latest order for `menu_item_id` at `table_number`;
    /// the book itself where there is no such order.
    pub open spec fn without_latest(self, menu_item_id: i32, table_number: i32) -> OrderBook {
        match self.latest(menu_item_id, table_number) {
            Some(i) => OrderBook { orders: self.orders.remove(i), ..self },
            None => self,
        }
    }

    /// How many orders `without_latest` takes away: one or none.
    pub open spec fn removed_count(self, menu_item_id: i32, table_number: i32) -> u64 {
        if self.has_order_for(menu_item_id, table_number) {
            1
        } else {
            0
        }
    }

    /// How many stored orders are for `menu_item_id` at `table_number`.
    pub open spec fn count_for(self, menu_item_id: i32, table_number: i32) -> nat {
        self.orders_for(menu_item_id, table_number).len()
    }

    /// The book after `orders` were stored one after the other.
    pub open spec fn with_orders(self, orders: Seq<Order>) -> OrderBook
        decreases orders.len(),
    {
        if orders.len() == 0 {
            self
        } else {
            self.with_orders(orders.drop_last()).with_order(orders.last())
        }
    }

    /// Whether the book accepts each of `orders` when they are stored one
    /// after the other.
    pub open spec fn accepts_all(self, orders: Seq<Order>) -> bool
        decreases orders.len(),
    {
        orders.len() > 0 ==> self.accepts_all(orders.drop_last()) && self.with_orders(
            orders.drop_last(),
        ).accepts(orders.last())
    }

    /// The book after `times` removals of the latest order for
    /// `menu_item_id` at `table_number`.
    pub open spec fn without_latest_times(
        self,
        menu_item_id: i32,
        table_number: i32,
        times: nat,
    ) -> OrderBook
        decreases times,
    {
        if times == 0 {
            self
        } else {
            self.without_latest(menu_item_id, table_number).without_latest_times(
                menu_item_id,
                table_number,
                (times - 1) as nat,
            )
        }
    }

    /// How many orders those `times` removals take away together.
    pub open spec fn removed_in(self, menu_item_id: i32, table_number: i32, times: nat) -> nat
        decreases times,
    {
        if times == 0 {
            0
        } else {
            self.removed_count(menu_item_id, table_number) as nat + self.without_latest(
                menu_item_id,
                table_number,
            ).removed_in(menu_item_id, table_number, (times - 1) as nat)
        }
    }
}

impl OrderBook {
    /// In a well-formed book at most one position holds the latest order of
    /// a table and item: the order of creation time and identifier is total
    /// on orders with distinct identifiers.
    pub proof fn lemma_latest_unique(self, i: int, j: int, menu_item_id: i32, table_number: i32)
        requires
            self.wf(),
            self.is_latest(i, menu_item_id, table_number),
            self.is_latest(j, menu_item_id, table_number),
        ensures
            i == j,
    {
    }

    /// A position that holds the latest order is the one that `latest` names.
    pub proof fn lemma_latest_is(self, i: int, menu_item_id: i32, table_number: i32)
        requires
            self.wf(),
            self.is_latest(i, menu_item_id, table_number),
        ensures
            self.latest(menu_item_id, table_number) == Some(i),
    {
        let k = choose|k: int| self.is_latest(k, menu_item_id, table_number);
        self.lemma_latest_unique(i, k, menu_item_id, table_number);
    }

    /// Storing an accepted order keeps the book well formed.
    pub proof fn lemma_with_order_wf(self, order: Order)
        requires
            self.wf(),
            self.accepts(order),
        ensures
            self.with_order(order).wf(),
    {
    }

    /// Taking an order away keeps the book well formed.
    pub proof fn lemma_remove_wf(self, i: int)
        requires
            self.wf(),
            0 <= i < self.orders.len(),
        ensures
            (OrderBook { orders: self.orders.remove(i), ..self }).wf(),
    {
    }

    /// Putting a new item on the menu keeps the book well formed.
    pub proof fn lemma_with_menu_item_wf(self, item: MenuItemView)
        requires
            self.wf(),
        ensures
            self.with_menu_item(item).wf(),
    {
    }

    /// Among the first `n` orders, if one is for the table and item, one of
    /// them is not older than any other.
    proof fn lemma_latest_in_prefix(self, n: int, menu_item_id: i32, table_number: i32) -> (best:
        int)
        requires
            0 <= n <= self.orders.len(),
            exists|j: int|
                0 <= j < n && (#[trigger] self.orders[j]).is_for(menu_item_id, table_number),
        ensures
            0 <= best < n,
            self.orders[best].is_for(menu_item_id, table_number),
            forall|j: int|
                0 <= j < n && (#[trigger] self.orders[j]).is_for(menu_item_id, table_number)
                    ==> !self.orders[j].newer_than(self.orders[best]),
        decreases n,
    {
        let last = self.orders[n - 1];
        if exists|j: int|
            0 <= j < n - 1 && (#[trigger] self.orders[j]).is_for(menu_item_id, table_number) {
            let before = self.lemma_latest_in_prefix(n - 1, menu_item_id, table_number);
            if last.is_for(menu_item_id, table_number) && last.newer_than(self.orders[before]) {
                n - 1
            } else {
                before
            }
        } else {
            n - 1
        }
    }

    /// Where a table has an order of an item, `latest` names a position that
    /// holds the latest of them.
    pub proof fn lemma_latest_exists(self, menu_item_id: i32, table_number: i32)
        requires
            self.has_order_for(menu_item_id, table_number),
        ensures
            self.latest(menu_item_id, table_number) matches Some(i) && self.is_latest(
                i,
                menu_item_id,
                table_number,
            ),
    {
        let best = self.lemma_latest_in_prefix(
            self.orders.len() as int,
            menu_item_id,
            table_number,
        );
        assert(self.is_latest(best, menu_item_id, table_number));
    }
}

} // verus!
