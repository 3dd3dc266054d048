//! The operations that every store of orders offers.

use crate::domain::{CompleteOrder, CompleteOrderView, Order, OrderId};
use crate::order_book::OrderBook;
use vstd::prelude::*;

verus! {

/// The views of `rows`, in the same order.
pub open spec fn views(rows: Seq<CompleteOrder>) -> Seq<CompleteOrderView> {
    rows.map_values(|row: CompleteOrder| row@)
}

/// The kinds of failure of a store.
#[derive(Debug, Clone, Copy, PartialEq, Eq, Hash, Structural)]
pub enum ErrorKind {
    /// The store could not be reached, or did not answer in time.
    ConnectionFailure,
    /// The request would break a rule of the stored data: an order that
    /// refers to no menu item, or an identifier that is in use.
    Constraint,
}

/// A store of orders over a fixed menu. What it holds is well formed at all
/// times. A call either fails with an error of the store's own and leaves the
/// contents as they were, or does what its contract says. Only storing an
/// order can fail for the data's sake.
pub trait OrderRepository {
    /// What the store reports when it cannot do what was asked.
    type ErrT;

    /// What the store holds. The contracts speak of it; nothing that runs
    /// calls it.
    spec fn book(&self) -> OrderBook;

    /// The kind of failure that `error` reports. The contracts speak of it;
    /// what runs calls `error_kind`.
    spec fn kind(error: Self::ErrT) -> ErrorKind;

    /// Tells the kind of failure that `error` reports.
    fn error_kind(error: &Self::ErrT) -> (kind: ErrorKind)
        ensures
            kind == Self::kind(*error),
    ;

    /// Stores `order` and returns its identifier. An order that the book does
    /// not accept is never stored, and only such an order is refused for the
    /// data's sake.
    fn create(&mut self, order: &Order) -> (result: Result<OrderId, Self::ErrT>)
        ensures
            old(self).book().wf(),
            final(self).book().wf(),
            match result {
                Ok(id) => {
                    &&& id == order.id
                    &&& old(self).book().accepts(*order)
                    &&& final(self).book() == old(self).book().with_order(*order)
                },
                Err(error) => {
                    &&& final(self).book() == old(self).book()
                    &&& Self::kind(error) == ErrorKind::Constraint ==> !old(self).book().accepts(
                        *order,
                    )
                },
            },
    ;

    /// All orders of `table_number`, each joined with its menu item, in an
    /// order that is the store's to choose. A table without orders gives an
    /// empty vector.
    fn read_orders_by_table(&self, table_number: i32) -> (result: Result<
        Vec<CompleteOrder>,
        Self::ErrT,
    >)
        ensures
            self.book().wf(),
            match result {
                Ok(rows) => views(rows@).to_multiset() == self.book().rows_of_table(
                    table_number,
                ).to_multiset(),
                Err(error) => Self::kind(error) == ErrorKind::ConnectionFailure,
            },
    ;

    /// The latest order for `menu_item_id` at `table_number`, joined with its
    /// menu item; `None` where the table has no order of that item.
    fn read_order_item_from_table(&self, menu_item_id: i32, table_number: i32) -> (result: Result<
        Option<CompleteOrder>,
        Self::ErrT,
    >)
        ensures
            self.book().wf(),
            match result {
                Ok(Some(row)) => self.book().latest_row(menu_item_id, table_number) == Some(row@),
                Ok(None) => self.book().latest_row(menu_item_id, table_number) is None,
                Err(error) => Self::kind(error) == ErrorKind::ConnectionFailure,
            },
    ;

    /// Orders are never changed in place: a change is a delete and a create.
    fn update_order(&self) -> (result: Result<(), Self::ErrT>)
        ensures
            self.book().wf(),
            result is Ok,
    ;

    /// Removes the latest order for `menu_item_id` at `table_number` and
    /// returns how many orders it removed: one, or none where the table has
    /// no order of that item.
    fn delete_order_item_from_table(&mut self, menu_item_id: i32, table_number: i32) -> (result:
        Result<u64, Self::ErrT>)
        ensures
            old(self).book().wf(),
            final(self).book().wf(),
            match result {
                Ok(count) => {
                    &&& count == old(self).book().removed_count(menu_item_id, table_number)
                    &&& final(self).book() == old(self).book().without_latest(
                        menu_item_id,
                        table_number,
                    )
                },
                Err(error) => {
                    &&& final(self).book() == old(self).book()
                    &&& Self::kind(error) == ErrorKind::ConnectionFailure
                },
            },
    ;
}

} // verus!
