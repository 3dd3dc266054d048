//! A repository that keeps the menu and the orders in memory.

use crate::domain::{CompleteOrder, MenuItem, Order, OrderId};
use crate::order_book::{of_table, OrderBook};
use crate::repository::{views, ErrorKind, OrderRepository};
use std::collections::HashMap;
use vstd::pervasive::unreached;
use vstd::prelude::*;

verus! {

broadcast use vstd::std_specs::hash::group_hash_axioms;

/// A repository in memory: the menu by identifier, and the orders oldest
/// insertion first. Every order in it refers to an item of its menu, and no
/// two of its orders share an identifier. It never fails to answer, so the
/// only error it gives is the refusal of what would break those rules.
#[derive(Debug)]
pub struct MemoryOrderRepository {
    menu: HashMap<i32, MenuItem>,
    orders: Vec<Order>,
}

impl View for MemoryOrderRepository {
    type V = OrderBook;

    closed spec fn view(&self) -> OrderBook {
        OrderBook { menu: self.menu@.map_values(|item: MenuItem| item@), orders: self.orders@ }
    }
}

impl MemoryOrderRepository {
    #[verifier::type_invariant]
    spec fn well_formed(self) -> bool {
        self@.wf()
    }

    /// A repository with an empty menu and no orders.
    pub fn new() -> (repo: MemoryOrderRepository)
        ensures
            repo@ == OrderBook::empty(),
            repo@.wf(),
    {
        let repo = MemoryOrderRepository { menu: HashMap::new(), orders: Vec::new() };
        assert(repo@.menu =~= Map::empty());
        repo
    }

    /// Puts `item` on the menu. An identifier that is on the menu already is
    /// refused and keeps its item.
    pub fn insert_menu_item(&mut self, item: MenuItem) -> (result: Result<(), ErrorKind>)
        ensures
            final(self)@.wf(),
            match result {
                Ok(_) => {
                    &&& !old(self)@.menu.contains_key(item.id)
                    &&& final(self)@ == old(self)@.with_menu_item(item@)
                },
                Err(e) => {
                    &&& e == ErrorKind::Constraint
                    &&& old(self)@.menu.contains_key(item.id)
                    &&& final(self)@ == old(self)@
                },
            },
    {
        proof {
            use_type_invariant(&*self);
        }
        if self.menu.contains_key(&item.id) {
            return Err(ErrorKind::Constraint);
        }
        let ghost before = self@;
        let ghost entry = item@;
        let (mut menu, orders) = self.take_apart();
        menu.insert(item.id, item);
        proof {
            assert(menu@.map_values(|item: MenuItem| item@) =~= before.menu.insert(
                entry.id,
                entry,
            ));
            before.lemma_with_menu_item_wf(entry);
        }
        *self = MemoryOrderRepository { menu, orders };
        Ok(())
    }

    /// Hands out the menu and the orders, and leaves an empty repository
    /// behind until they are put back.
    fn take_apart(&mut self) -> (parts: (HashMap<i32, MenuItem>, Vec<Order>))
        ensures
            parts.0 == old(self).menu,
            parts.1 == old(self).orders,
            final(self)@ == OrderBook::empty(),
    {
        let mut taken = MemoryOrderRepository::new();
        std::mem::swap(self, &mut taken);
        let MemoryOrderRepository { menu, orders } = taken;
        (menu, orders)
    }

    /// Whether some stored order has the identifier `id`.
    fn holds_id(&self, id: OrderId) -> (found: bool)
        ensures
            found == self@.has_order_id(id),
    {
        let mut i: usize = 0;
        while i < self.orders.len()
            invariant
                i <= self.orders.len(),
                forall|k: int| 0 <= k < i ==> self.orders@[k].id != id,
            decreases self.orders.len() - i,
        {
            if self.orders[i].id == id {
                assert(self@.orders[i as int].id == id);
                return true;
            }
            i += 1;
        }
        false
    }

    /// `order` joined with its menu item.
    fn complete(&self, order: &Order) -> (row: CompleteOrder)
        requires
            self@.menu.contains_key(order.menu_item_id),
        ensures
            row@ == self@.row(*order),
    {
        match self.menu.get(&order.menu_item_id) {
            Some(item) => CompleteOrder {
                order_id: order.id,
                table_number: order.table_number,
                menu_item_id: order.menu_item_id,
                created_at: order.created_at,
                item_name: item.item_name.clone(),
                cooking_time: item.cooking_time,
            },
            None => unreached(),
        }
    }

    /// The position of the latest order for `menu_item_id` at `table_number`.
    fn find_latest(&self, menu_item_id: i32, table_number: i32) -> (found: Option<usize>)
        ensures
            match found {
                Some(i) => self@.latest(menu_item_id, table_number) == Some(i as int)
                    && self@.is_latest(i as int, menu_item_id, table_number),
                None => !self@.has_order_for(menu_item_id, table_number),
            },
    {
        proof {
            use_type_invariant(self);
        }
        let mut best: Option<usize> = None;
        let mut i: usize = 0;
        while i < self.orders.len()
            invariant
                i <= self.orders.len(),
                match best {
                    Some(b) => {
                        &&& b < i
                        &&& self.orders@[b as int].is_for(menu_item_id, table_number)
                        &&& forall|j: int|
                            0 <= j < i && (#[trigger] self.orders@[j]).is_for(
                                menu_item_id,
                                table_number,
                            ) ==> !self.orders@[j].newer_than(self.orders@[b as int])
                    },
                    None => forall|j: int|
                        0 <= j < i ==> !(#[trigger] self.orders@[j]).is_for(
                            menu_item_id,
                            table_number,
                        ),
                },
            decreases self.orders.len() - i,
        {
            let order = &self.orders[i];
            if order.menu_item_id == menu_item_id && order.table_number == table_number {
                match best {
                    Some(b) => {
                        if order.is_newer_than(&self.orders[b]) {
                            best = Some(i);
                        }
                    },
                    None => {
                        best = Some(i);
                    },
                }
            }
            i += 1;
        }
        proof {
            if let Some(b) = best {
                self@.lemma_latest_is(b as int, menu_item_id, table_number);
            }
        }
        best
    }
}

impl OrderRepository for MemoryOrderRepository {
    type ErrT = ErrorKind;

    open spec fn book(&self) -> OrderBook {
        self@
    }

    open spec fn kind(error: ErrorKind) -> ErrorKind {
        error
    }

    fn error_kind(error: &ErrorKind) -> (kind: ErrorKind) {
        *error
    }

    /// Stores `order` where the book accepts it, and refuses it with
    /// `Constraint` where it does not.
    fn create(&mut self, order: &Order) -> (result: Result<OrderId, ErrorKind>)
        ensures
            result is Ok <==> old(self)@.accepts(*order),
            result matches Err(e) ==> e == ErrorKind::Constraint,
    {
        proof {
            use_type_invariant(&*self);
        }
        if !self.menu.contains_key(&order.menu_item_id) || self.holds_id(order.id) {
            return Err(ErrorKind::Constraint);
        }
        proof {
            self@.lemma_with_order_wf(*order);
        }
        let (menu, mut orders) = self.take_apart();
        orders.push(*order);
        *self = MemoryOrderRepository { menu, orders };
        Ok(order.id)
    }

    /// Never fails, and gives the rows oldest insertion first.
    fn read_orders_by_table(&self, table_number: i32) -> (result: Result<
        Vec<CompleteOrder>,
        ErrorKind,
    >)
        ensures
            result matches Ok(rows) && views(rows@) == self@.rows_of_table(table_number),
    {
        proof {
            use_type_invariant(self);
        }
        let mut rows: Vec<CompleteOrder> = Vec::new();
        let mut i: usize = 0;
        while i < self.orders.len()
            invariant
                i <= self.orders.len(),
                self@.wf(),
                views(rows@) == self@.join(
                    self.orders@.take(i as int).filter(of_table(table_number)),
                ),
            decreases self.orders.len() - i,
        {
            let order = &self.orders[i];
            let ghost seen = self.orders@.take(i as int);
            proof {
                assert(self.orders@.take(i + 1) =~= seen.push(*order));
                seen.lemma_filter_push(*order, of_table(table_number));
            }
            if order.table_number == table_number {
                assert(self@.menu.contains_key(self@.orders[i as int].menu_item_id));
                let row = self.complete(order);
                rows.push(row);
                proof {
                    let kept = seen.filter(of_table(table_number));
                    assert(self@.join(kept.push(*order)) =~= self@.join(kept).push(
                        self@.row(*order),
                    ));
                }
            }
            i += 1;
        }
        proof {
            assert(self.orders@.take(i as int) =~= self.orders@);
        }
        Ok(rows)
    }

    /// Never fails.
    fn read_order_item_from_table(&self, menu_item_id: i32, table_number: i32) -> (result: Result<
        Option<CompleteOrder>,
        ErrorKind,
    >)
        ensures
            result is Ok,
    {
        proof {
            use_type_invariant(self);
        }
        match self.find_latest(menu_item_id, table_number) {
            Some(i) => Ok(Some(self.complete(&self.orders[i]))),
            None => Ok(None),
        }
    }

    fn update_order(&self) -> (result: Result<(), ErrorKind>) {
        proof {
            use_type_invariant(self);
        }
        Ok(())
    }

    /// Never fails.
    fn delete_order_item_from_table(&mut self, menu_item_id: i32, table_number: i32) -> (result:
        Result<u64, ErrorKind>)
        ensures
            result is Ok,
    {
        proof {
            use_type_invariant(&*self);
        }
        match self.find_latest(menu_item_id, table_number) {
            Some(i) => {
                proof {
                    self@.lemma_remove_wf(i as int);
                }
                let (menu, mut orders) = self.take_apart();
                orders.remove(i);
                *self = MemoryOrderRepository { menu, orders };
                Ok(1)
            },
            None => Ok(0),
        }
    }
}

} // verus!
