//! What holds of orders as they are stored, read and removed.

use crate::domain::Order;
use crate::order_book::{for_item, of_table, OrderBook};
use vstd::prelude::*;

verus! {

/// `orders` without the one at position `i`, filtered: what comes before
/// `i` and passes, then what comes after `i` and passes.
proof fn lemma_filter_remove(orders: Seq<Order>, i: int, pred: spec_fn(Order) -> bool)
    requires
        0 <= i < orders.len(),
    ensures
        orders.remove(i).filter(pred) == orders.take(i).filter(pred) + orders.skip(i + 1).filter(
            pred,
        ),
        orders.filter(pred) == if pred(orders[i]) {
            orders.take(i).filter(pred).push(orders[i]) + orders.skip(i + 1).filter(pred)
        } else {
            orders.take(i).filter(pred) + orders.skip(i + 1).filter(pred)
        },
{
    let head = orders.take(i);
    let tail = orders.skip(i + 1);
    assert(orders =~= head.push(orders[i]) + tail);
    Seq::filter_distributes_over_add(head, tail, pred);
    Seq::filter_distributes_over_add(head.push(orders[i]), tail, pred);
    head.lemma_filter_push(orders[i], pred);
}

/// Some order passes `pred` exactly if the filtered sequence is not empty.
proof fn lemma_filter_nonempty(orders: Seq<Order>, pred: spec_fn(Order) -> bool)
    ensures
        (exists|i: int| 0 <= i < orders.len() && pred(#[trigger] orders[i])) <==> orders.filter(
            pred,
        ).len() > 0,
    decreases orders.len(),
{
    reveal(Seq::filter);
    if orders.len() > 0 {
        let front = orders.drop_last();
        lemma_filter_nonempty(front, pred);
        if exists|i: int| 0 <= i < orders.len() && pred(#[trigger] orders[i]) {
            let i = choose|i: int| 0 <= i < orders.len() && pred(#[trigger] orders[i]);
            if i < orders.len() - 1 {
                assert(pred(front[i]));
            }
        }
    }
}

/// A sequence of which every order passes `pred` is its own filter.
proof fn lemma_filter_all(orders: Seq<Order>, pred: spec_fn(Order) -> bool)
    requires
        forall|k: int| 0 <= k < orders.len() ==> pred(#[trigger] orders[k]),
    ensures
        orders.filter(pred) == orders,
    decreases orders.len(),
{
    reveal(Seq::filter);
    if orders.len() > 0 {
        lemma_filter_all(orders.drop_last(), pred);
    }
}

impl OrderBook {
    /// There is an order for a table and item exactly if their count is not
    /// zero.
    pub proof fn lemma_has_order_for_counts(self, menu_item_id: i32, table_number: i32)
        ensures
            self.has_order_for(menu_item_id, table_number) <==> self.count_for(
                menu_item_id,
                table_number,
            ) > 0,
    {
        lemma_filter_nonempty(self.orders, for_item(menu_item_id, table_number));
    }

    /// A removal takes away exactly what it counts: the orders for the table
    /// and item become fewer by the count, the order that went is in the book
    /// no more, all other orders stay where they were, the menu stays, and the
    /// book stays well formed.
    pub proof fn lemma_without_latest(self, menu_item_id: i32, table_number: i32)
        requires
            self.wf(),
        ensures
            self.without_latest(menu_item_id, table_number).wf(),
            self.without_latest(menu_item_id, table_number).menu == self.menu,
            self.without_latest(menu_item_id, table_number).count_for(menu_item_id, table_number)
                + self.removed_count(menu_item_id, table_number) == self.count_for(
                menu_item_id,
                table_number,
            ),
            self.without_latest(menu_item_id, table_number).orders.len() + self.removed_count(
                menu_item_id,
                table_number,
            ) == self.orders.len(),
            forall|m: i32, t: i32|
                !(m == menu_item_id && t == table_number) ==> #[trigger] self.without_latest(
                    menu_item_id,
                    table_number,
                ).orders_for(m, t) == self.orders_for(m, t),
            self.latest(menu_item_id, table_number) matches Some(i) ==> !self.without_latest(
                menu_item_id,
                table_number,
            ).has_order_id(self.orders[i].id),
    {
        let after = self.without_latest(menu_item_id, table_number);
        if self.has_order_for(menu_item_id, table_number) {
            self.lemma_latest_exists(menu_item_id, table_number);
            let i = self.latest(menu_item_id, table_number).unwrap();
            self.lemma_remove_wf(i);
            lemma_filter_remove(self.orders, i, for_item(menu_item_id, table_number));
            assert forall|m: i32, t: i32|
                !(m == menu_item_id && t == table_number) implies #[trigger] after.orders_for(m, t)
                == self.orders_for(m, t) by {
                lemma_filter_remove(self.orders, i, for_item(m, t));
            }
        }
    }

    /// An order that was stored is read back. The rows of its table are the
    /// rows from before and then the row of the new order; that row carries
    /// the order's identifier, table, menu item and creation time, and the
    /// name and cooking time of the menu item whose identifier the order
    /// names. The rows of every other table are as before.
    pub proof fn lemma_stored_order_is_read(self, order: Order)
        requires
            self.wf(),
            self.accepts(order),
        ensures
            self.with_order(order).wf(),
            self.with_order(order).rows_of_table(order.table_number) == self.rows_of_table(
                order.table_number,
            ).push(self.row(order)),
            self.row(order).order_id == order.id,
            self.row(order).table_number == order.table_number,
            self.row(order).menu_item_id == order.menu_item_id,
            self.row(order).created_at == order.created_at,
            self.menu[order.menu_item_id].id == order.menu_item_id,
            self.row(order).item_name == self.menu[order.menu_item_id].item_name,
            self.row(order).cooking_time == self.menu[order.menu_item_id].cooking_time,
            forall|t: i32|
                t != order.table_number ==> #[trigger] self.with_order(order).rows_of_table(t)
                    == self.rows_of_table(t),
    {
        let after = self.with_order(order);
        assert forall|t: i32| #[trigger]
            after.rows_of_table(t) == if t == order.table_number {
                self.rows_of_table(t).push(self.row(order))
            } else {
                self.rows_of_table(t)
            } by {
            self.orders.lemma_filter_push(order, of_table(t));
        }
    }

    /// Of the orders for one table and item, the one created after all the
    /// others is the latest: it is the one that is read, and a removal takes
    /// away exactly that order and counts one.
    pub proof fn lemma_newest_is_latest(self, i: int, menu_item_id: i32, table_number: i32)
        requires
            self.wf(),
            0 <= i < self.orders.len(),
            self.orders[i].is_for(menu_item_id, table_number),
            forall|j: int|
                0 <= j < self.orders.len() && j != i && (#[trigger] self.orders[j]).is_for(
                    menu_item_id,
                    table_number,
                ) ==> self.orders[j].created_at.before(self.orders[i].created_at),
        ensures
            self.latest(menu_item_id, table_number) == Some(i),
            self.latest_row(menu_item_id, table_number) == Some(self.row(self.orders[i])),
            self.removed_count(menu_item_id, table_number) == 1,
            self.without_latest(menu_item_id, table_number).menu == self.menu,
            self.without_latest(menu_item_id, table_number).orders == self.orders.remove(i),
    {
        self.lemma_latest_is(i, menu_item_id, table_number);
    }

    /// After the newest order for a table and item was removed, the one
    /// created after all the remaining ones is the latest: it is the one that
    /// is read next, and the next removal takes away exactly that order and
    /// counts one again.
    pub proof fn lemma_second_newest_is_next(
        self,
        i: int,
        k: int,
        menu_item_id: i32,
        table_number: i32,
    )
        requires
            self.wf(),
            0 <= i < self.orders.len(),
            0 <= k < self.orders.len(),
            k != i,
            self.orders[i].is_for(menu_item_id, table_number),
            self.orders[k].is_for(menu_item_id, table_number),
            self.orders[k].created_at.before(self.orders[i].created_at),
            forall|j: int|
                0 <= j < self.orders.len() && j != i && j != k && (#[trigger] self.orders[j]).is_for(
                    menu_item_id,
                    table_number,
                ) ==> self.orders[j].created_at.before(self.orders[k].created_at),
        ensures
            self.latest_row(menu_item_id, table_number) == Some(self.row(self.orders[i])),
            self.without_latest(menu_item_id, table_number).latest_row(menu_item_id, table_number)
                == Some(self.row(self.orders[k])),
            self.without_latest(menu_item_id, table_number).removed_count(
                menu_item_id,
                table_number,
            ) == 1,
            self.without_latest(menu_item_id, table_number).without_latest(
                menu_item_id,
                table_number,
            ).orders == self.orders.remove(i).remove(
                if k < i {
                    k
                } else {
                    k - 1
                },
            ),
    {
        self.lemma_newest_is_latest(i, menu_item_id, table_number);
        self.lemma_remove_wf(i);
        let after = self.without_latest(menu_item_id, table_number);
        let moved = if k < i {
            k
        } else {
            k - 1
        };
        after.lemma_newest_is_latest(moved, menu_item_id, table_number);
    }

    /// Where a table has no order of an item, a removal counts none and
    /// leaves the book as it was.
    pub proof fn lemma_nothing_to_remove(self, menu_item_id: i32, table_number: i32)
        requires
            !self.has_order_for(menu_item_id, table_number),
        ensures
            self.removed_count(menu_item_id, table_number) == 0,
            self.without_latest(menu_item_id, table_number) == self,
            self.latest_row(menu_item_id, table_number) is None,
    {
    }

    /// An order whose menu item is not on the menu is not accepted.
    pub proof fn lemma_unknown_menu_item_is_refused(self, order: Order)
        requires
            !self.menu.contains_key(order.menu_item_id),
        ensures
            !self.accepts(order),
    {
    }

    /// Storing accepted orders one after the other keeps the menu and the
    /// book's well-formedness, and adds each of them once.
    pub proof fn lemma_with_orders(self, orders: Seq<Order>, menu_item_id: i32, table_number: i32)
        requires
            self.wf(),
            self.accepts_all(orders),
        ensures
            self.with_orders(orders).wf(),
            self.with_orders(orders).menu == self.menu,
            self.with_orders(orders).orders == self.orders + orders,
            self.with_orders(orders).count_for(menu_item_id, table_number) == self.count_for(
                menu_item_id,
                table_number,
            ) + orders.filter(for_item(menu_item_id, table_number)).len(),
        decreases orders.len(),
    {
        let pred = for_item(menu_item_id, table_number);
        if orders.len() > 0 {
            let front = orders.drop_last();
            self.lemma_with_orders(front, menu_item_id, table_number);
            let before = self.with_orders(front);
            before.lemma_with_order_wf(orders.last());
            before.orders.lemma_filter_push(orders.last(), pred);
            front.lemma_filter_push(orders.last(), pred);
        }
    }

    /// However many removals follow one another, together they take away
    /// as many orders as there were for the table and item, or as many as
    /// there were removals, whichever is less; as many orders for the table
    /// and item, and as many orders in all, are gone from the book.
    pub proof fn lemma_removed_in(self, menu_item_id: i32, table_number: i32, times: nat)
        requires
            self.wf(),
        ensures
            self.without_latest_times(menu_item_id, table_number, times).wf(),
            self.without_latest_times(menu_item_id, table_number, times).menu == self.menu,
            self.removed_in(menu_item_id, table_number, times) == if times <= self.count_for(
                menu_item_id,
                table_number,
            ) {
                times
            } else {
                self.count_for(menu_item_id, table_number)
            },
            self.without_latest_times(menu_item_id, table_number, times).count_for(
                menu_item_id,
                table_number,
            ) + self.removed_in(menu_item_id, table_number, times) == self.count_for(
                menu_item_id,
                table_number,
            ),
            self.without_latest_times(menu_item_id, table_number, times).orders.len()
                + self.removed_in(menu_item_id, table_number, times) == self.orders.len(),
        decreases times,
    {
        if times > 0 {
            self.lemma_without_latest(menu_item_id, table_number);
            self.lemma_has_order_for_counts(menu_item_id, table_number);
            self.without_latest(menu_item_id, table_number).lemma_removed_in(
                menu_item_id,
                table_number,
                (times - 1) as nat,
            );
        }
    }

    /// While orders for the table and item are left, each removal counts one.
    pub proof fn lemma_each_removal_counts_one(
        self,
        menu_item_id: i32,
        table_number: i32,
        done: nat,
    )
        requires
            self.wf(),
            done < self.count_for(menu_item_id, table_number),
        ensures
            self.without_latest_times(menu_item_id, table_number, done).removed_count(
                menu_item_id,
                table_number,
            ) == 1,
    {
        self.lemma_removed_in(menu_item_id, table_number, done);
        self.without_latest_times(menu_item_id, table_number, done).lemma_has_order_for_counts(
            menu_item_id,
            table_number,
        );
    }

    /// As many orders as were stored for a table and item are removed again
    /// by as many removals: each of the removals counts one, together they
    /// count what was stored, and the book then holds as many orders for the
    /// table and item, and as many orders in all, as before the first of them
    /// was stored.
    pub proof fn lemma_as_many_removed_as_stored(
        self,
        orders: Seq<Order>,
        menu_item_id: i32,
        table_number: i32,
    )
        requires
            self.wf(),
            self.accepts_all(orders),
            forall|k: int|
                0 <= k < orders.len() ==> (#[trigger] orders[k]).is_for(menu_item_id, table_number),
        ensures
            self.with_orders(orders).count_for(menu_item_id, table_number) == self.count_for(
                menu_item_id,
                table_number,
            ) + orders.len(),
            forall|done: nat|
                done < orders.len() ==> (#[trigger] self.with_orders(orders).without_latest_times(
                    menu_item_id,
                    table_number,
                    done,
                )).removed_count(menu_item_id, table_number) == 1,
            self.with_orders(orders).removed_in(menu_item_id, table_number, orders.len())
                == orders.len(),
            self.with_orders(orders).without_latest_times(
                menu_item_id,
                table_number,
                orders.len(),
            ).count_for(menu_item_id, table_number) == self.count_for(menu_item_id, table_number),
            self.with_orders(orders).without_latest_times(
                menu_item_id,
                table_number,
                orders.len(),
            ).orders.len() == self.orders.len(),
    {
        let pred = for_item(menu_item_id, table_number);
        let stored = self.with_orders(orders);
        self.lemma_with_orders(orders, menu_item_id, table_number);
        assert(orders.filter(pred) =~= orders) by {
            lemma_filter_all(orders, pred);
        }
        stored.lemma_removed_in(menu_item_id, table_number, orders.len());
        assert forall|done: nat| done < orders.len() implies (#[trigger] stored.without_latest_times(
            menu_item_id,
            table_number,
            done,
        )).removed_count(menu_item_id, table_number) == 1 by {
            stored.lemma_each_removal_counts_one(menu_item_id, table_number, done);
        }
    }
}

} // verus!
