//! The values of the restaurant: orders, menu items and the rows that join them.

use crate::repository::{views, ErrorKind, OrderRepository};
use vstd::prelude::*;

verus! {

/// The bits that fix the version and the variant of an identifier.
pub const LAYOUT_MASK: u128 = 0x0000_0000_0000_f000_c000_0000_0000_0000;

/// The layout bits of a random identifier: version 4, variant `10`.
pub const RANDOM_LAYOUT: u128 = 0x0000_0000_0000_4000_8000_0000_0000_0000;

/// The 128-bit identifier of one order.
#[derive(Debug, Clone, Copy, PartialEq, Eq, Hash, Structural)]
pub struct OrderId {
    pub bits: u128,
}

impl OrderId {
    /// The version number: the high half of the seventh byte.
    pub open spec fn version(self) -> int {
        ((self.bits >> 76) & 0xf) as int
    }

    /// Whether the identifier has the layout of a random one.
    pub open spec fn is_random(self) -> bool {
        self.bits & LAYOUT_MASK == RANDOM_LAYOUT
    }

    /// A random identifier has version 4.
    pub proof fn lemma_random_has_version_4(self)
        requires
            self.is_random(),
        ensures
            self.version() == 4,
    {
        let bits = self.bits;
        assert(bits & 0x0000_0000_0000_f000_c000_0000_0000_0000
            == 0x0000_0000_0000_4000_8000_0000_0000_0000 ==> (bits >> 76) & 0xf == 4)
            by (bit_vector);
    }

    /// The identifier with the bits `bits`.
    pub fn from_u128(bits: u128) -> (id: OrderId)
        ensures
            id.bits == bits,
    {
        OrderId { bits }
    }

    /// The bits of the identifier.
    pub fn as_u128(&self) -> (bits: u128)
        ensures
            bits == self.bits,
    {
        self.bits
    }

    /// The version number of the identifier.
    pub fn get_version_num(&self) -> (version: usize)
        ensures
            version == self.version(),
    {
        let bits: u128 = self.bits;
        let nibble: u128 = (bits >> 76) & 0xf;
        assert(nibble <= 0xf) by (bit_vector)
            requires
                nibble == (bits >> 76) & 0xf,
        ;
        nibble as usize
    }
}

/// An instant in UTC: whole seconds since 1970-01-01 00:00:00, and the
/// nanoseconds past that second.
#[derive(Debug, Clone, Copy, PartialEq, Eq, Hash, Structural)]
pub struct Timestamp {
    pub secs: i64,
    pub nanos: u32,
}

impl Timestamp {
    /// Strictly earlier: by the seconds, then by the nanoseconds.
    pub open spec fn before(self, other: Timestamp) -> bool {
        self.secs < other.secs || (self.secs == other.secs && self.nanos < other.nanos)
    }

    /// Whether this instant is strictly earlier than `other`.
    pub fn is_before(&self, other: &Timestamp) -> (earlier: bool)
        ensures
            earlier == self.before(*other),
    {
        self.secs < other.secs || (self.secs == other.secs && self.nanos < other.nanos)
    }
}

/// One ordered item: which table asked for which menu item, and when.
#[derive(Debug, Clone, Copy, PartialEq, Eq, Hash, Structural)]
pub struct Order {
    pub id: OrderId,
    pub table_number: i32,
    pub menu_item_id: i32,
    pub created_at: Timestamp,
}

/// One entry of the menu: what can be ordered, and how long it takes to cook.
#[derive(Debug, Clone, PartialEq, Eq)]
pub struct MenuItem {
    pub id: i32,
    pub item_name: String,
    pub cooking_time: i32,
}

/// What a `MenuItem` holds, with the name as a sequence of characters.
pub struct MenuItemView {
    pub id: i32,
    pub item_name: Seq<char>,
    pub cooking_time: i32,
}

impl View for MenuItem {
    type V = MenuItemView;

    open spec fn view(&self) -> MenuItemView {
        MenuItemView { id: self.id, item_name: self.item_name@, cooking_time: self.cooking_time }
    }
}

/// An order together with the name and cooking time of its menu item.
#[derive(Debug, Clone, PartialEq, Eq)]
pub struct CompleteOrder {
    pub order_id: OrderId,
    pub table_number: i32,
    pub menu_item_id: i32,
    pub created_at: Timestamp,
    pub item_name: String,
    pub cooking_time: i32,
}

/// What a `CompleteOrder` holds, with the name as a sequence of characters.
pub struct CompleteOrderView {
    pub order_id: OrderId,
    pub table_number: i32,
    pub menu_item_id: i32,
    pub created_at: Timestamp,
    pub item_name: Seq<char>,
    pub cooking_time: i32,
}

impl View for CompleteOrder {
    type V = CompleteOrderView;

    open spec fn view(&self) -> CompleteOrderView {
        CompleteOrderView {
            order_id: self.order_id,
            table_number: self.table_number,
            menu_item_id: self.menu_item_id,
            created_at: self.created_at,
            item_name: self.item_name@,
            cooking_time: self.cooking_time,
        }
    }
}

/// Calls `uuid::Uuid::new_v4` and hands its 128 bits over as `Uuid::as_u128`
/// gives them. The version field of the result is 4 and its variant field is
/// `10`; the other 122 bits come from the operating system's random source.
/// `new_v4` panics where that source cannot be read.
#[verifier::external_body]
fn new_v4() -> (id: OrderId)
    ensures
        id.is_random(),
{
    OrderId { bits: uuid::Uuid::new_v4().as_u128() }
}

/// Calls `chrono::Utc::now` and takes the instant apart with
/// `DateTime::timestamp` and `DateTime::timestamp_subsec_nanos`. `now` measures
/// the system clock from the Unix epoch, so the seconds are not negative and
/// the nanoseconds stay under one second. It panics where the clock stands
/// before 1970.
#[verifier::external_body]
fn utc_now() -> (now: Timestamp)
    ensures
        now.secs >= 0,
        now.nanos < 1_000_000_000,
{
    let now = chrono::Utc::now();
    Timestamp { secs: now.timestamp(), nanos: now.timestamp_subsec_nanos() }
}

impl Order {
    /// A new order of `menu_item_id` for `table_number`, with a fresh random
    /// identifier and the current time. Whether the menu item exists is left
    /// to the repository that stores the order.
    pub fn new(table_number: i32, menu_item_id: i32) -> (order: Order)
        ensures
            order.table_number == table_number,
            order.menu_item_id == menu_item_id,
            order.id.is_random(),
            order.id.version() == 4,
            order.created_at.secs >= 0,
            order.created_at.nanos < 1_000_000_000,
    {
        let id = new_v4();
        proof {
            id.lemma_random_has_version_4();
        }
        Order { id, table_number, menu_item_id, created_at: utc_now() }
    }

    /// Stores the order in `repo` and returns its identifier; what `repo`
    /// reports instead is handed on as it is.
    pub fn create<O: OrderRepository>(&self, repo: &mut O) -> (result: Result<OrderId, O::ErrT>)
        ensures
            old(repo).book().wf(),
            final(repo).book().wf(),
            match result {
                Ok(id) => {
                    &&& id == self.id
                    &&& old(repo).book().accepts(*self)
                    &&& final(repo).book() == old(repo).book().with_order(*self)
                },
                Err(error) => {
                    &&& final(repo).book() == old(repo).book()
                    &&& O::kind(error) == ErrorKind::Constraint ==> !old(repo).book().accepts(*self)
                },
            },
    {
        repo.create(self)
    }

    /// The order that is chosen first among orders of one table and item: the
    /// one created later, and of two created at the same instant the one with
    /// the greater identifier.
    pub open spec fn newer_than(self, other: Order) -> bool {
        other.created_at.before(self.created_at) || (self.created_at == other.created_at
            && self.id.bits > other.id.bits)
    }

    /// Whether this order is chosen before `other`.
    pub fn is_newer_than(&self, other: &Order) -> (newer: bool)
        ensures
            newer == self.newer_than(*other),
    {
        other.created_at.is_before(&self.created_at) || (self.created_at == other.created_at
            && self.id.bits > other.id.bits)
    }

    /// Whether the order is for `menu_item_id` at `table_number`.
    pub open spec fn is_for(self, menu_item_id: i32, table_number: i32) -> bool {
        self.menu_item_id == menu_item_id && self.table_number == table_number
    }
}

/// All orders of `table_number` in `repo`, each joined with its menu item,
/// in the order in which `repo` gives them. A table without orders gives an
/// empty vector, which is no error.
pub fn read_orders_by_table<O: OrderRepository>(repo: &O, table_number: i32) -> (result: Result<
    Vec<CompleteOrder>,
    O::ErrT,
>)
    ensures
        repo.book().wf(),
        match result {
            Ok(rows) => views(rows@).to_multiset() == repo.book().rows_of_table(
                table_number,
            ).to_multiset(),
            Err(error) => O::kind(error) == ErrorKind::ConnectionFailure,
        },
{
    repo.read_orders_by_table(table_number)
}

/// The latest order for `menu_item_id` at `table_number` in `repo`, joined
/// with its menu item; `None` where the table has no order of that item.
pub fn read_order_item_from_table<O: OrderRepository>(
    repo: &O,
    menu_item_id: i32,
    table_number: i32,
) -> (result: Result<Option<CompleteOrder>, O::ErrT>)
    ensures
        repo.book().wf(),
        match result {
            Ok(Some(row)) => repo.book().latest_row(menu_item_id, table_number) == Some(row@),
            Ok(None) => repo.book().latest_row(menu_item_id, table_number) is None,
            Err(error) => O::kind(error) == ErrorKind::ConnectionFailure,
        },
{
    repo.read_order_item_from_table(menu_item_id, table_number)
}

/// Removes the latest order for `menu_item_id` at `table_number` from `repo`
/// and returns how many orders went: one, or none where the table has no
/// order of that item.
pub fn delete_order_item_from_table<O: OrderRepository>(
    repo: &mut O,
    menu_item_id: i32,
    table_number: i32,
) -> (result: Result<u64, O::ErrT>)
    ensures
        old(repo).book().wf(),
        final(repo).book().wf(),
        match result {
            Ok(count) => {
                &&& count == old(repo).book().removed_count(menu_item_id, table_number)
                &&& final(repo).book() == old(repo).book().without_latest(
                    menu_item_id,
                    table_number,
                )
            },
            Err(error) => {
                &&& final(repo).book() == old(repo).book()
                &&& O::kind(error) == ErrorKind::ConnectionFailure
            },
        },
{
    repo.delete_order_item_from_table(menu_item_id, table_number)
}

} // verus!
