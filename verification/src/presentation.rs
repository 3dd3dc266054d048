//! What a caller of the service is told: for each request the status and the
//! body of the answer, decided from what the repository returned.

use crate::domain::{
    delete_order_item_from_table, read_order_item_from_table, read_orders_by_table, CompleteOrder,
    CompleteOrderView, Order, OrderId,
};
use crate::repository::{views, OrderRepository, ErrorKind};
use vstd::prelude::*;

verus! {

/// A request for one menu item at one table.
#[derive(Debug, Clone, Copy, PartialEq, Eq, Structural)]
pub struct OrderRequest {
    pub table_number: i32,
    pub menu_item_id: i32,
}

/// The status of an answer, named as HTTP names it.
#[derive(Debug, Clone, Copy, PartialEq, Eq, Structural)]
pub enum Status {
    /// The request was carried out.
    Success,
    /// There was nothing to read or to remove.
    NotFound,
    /// The repository failed.
    InternalServerError,
}

impl Status {
    /// The status as a number.
    pub open spec fn number(self) -> u16 {
        match self {
            Status::Success => 200,
            Status::NotFound => 404,
            Status::InternalServerError => 500,
        }
    }

    /// The status as the number that is sent.
    pub fn code(&self) -> (code: u16)
        ensures
            code == self.number(),
    {
        match self {
            Status::Success => 200,
            Status::NotFound => 404,
            Status::InternalServerError => 500,
        }
    }
}

/// The sentences that an answer can carry.
#[derive(Debug, Clone, Copy, PartialEq, Eq, Structural)]
pub enum Message {
    UnknownMenuItem,
    NoOrdersFound,
    NoOrderFound,
    OrderDeleted,
    NothingToDelete,
}

impl Message {
    /// The sentence, character by character.
    pub open spec fn sentence(self) -> Seq<char> {
        match self {
            Message::UnknownMenuItem => "This menu item doesn't exist."@,
            Message::NoOrdersFound => "No orders found"@,
            Message::NoOrderFound => "No order found."@,
            Message::OrderDeleted => "Order deleted."@,
            Message::NothingToDelete => "No orders found to delete."@,
        }
    }

    /// The sentence as it is sent.
    pub fn text(&self) -> (text: &'static str)
        ensures
            text@ == self.sentence(),
    {
        match self {
            Message::UnknownMenuItem => "This menu item doesn't exist.",
            Message::NoOrdersFound => "No orders found",
            Message::NoOrderFound => "No order found.",
            Message::OrderDeleted => "Order deleted.",
            Message::NothingToDelete => "No orders found to delete.",
        }
    }
}

/// The body of an answer.
#[derive(Debug, Clone, PartialEq, Eq)]
pub enum Body {
    Empty,
    Text(Message),
    Id(OrderId),
    Rows(Vec<CompleteOrder>),
    Row(CompleteOrder),
}

/// What a `Body` holds, with rows by their views.
pub enum BodyView {
    Empty,
    Text(Message),
    Id(OrderId),
    Rows(Seq<CompleteOrderView>),
    Row(CompleteOrderView),
}

impl BodyView {
    /// The rows of a body that holds rows; no rows for any other body.
    pub open spec fn rows(self) -> Seq<CompleteOrderView> {
        match self {
            BodyView::Rows(rows) => rows,
            _ => Seq::empty(),
        }
    }
}

impl View for Body {
    type V = BodyView;

    open spec fn view(&self) -> BodyView {
        match self {
            Body::Empty => BodyView::Empty,
            Body::Text(message) => BodyView::Text(*message),
            Body::Id(id) => BodyView::Id(*id),
            Body::Rows(rows) => BodyView::Rows(views(rows@)),
            Body::Row(row) => BodyView::Row(row@),
        }
    }
}

/// An answer: a status and a body.
#[derive(Debug, Clone, PartialEq, Eq)]
pub struct Response {
    pub status: Status,
    pub body: Body,
}

/// What a `Response` holds, with the body by its view.
pub struct ResponseView {
    pub status: Status,
    pub body: BodyView,
}

impl View for Response {
    type V = ResponseView;

    open spec fn view(&self) -> ResponseView {
        ResponseView { status: self.status, body: self.body@ }
    }
}

/// The answer to a request that the repository failed on: no body.
pub open spec fn failure() -> ResponseView {
    ResponseView { status: Status::InternalServerError, body: BodyView::Empty }
}

/// The answer to an order that was stored: its identifier.
pub open spec fn created(id: OrderId) -> ResponseView {
    ResponseView { status: Status::Success, body: BodyView::Id(id) }
}

/// The answer to an order that was not stored: a refusal for the data's sake
/// names the menu item as the reason, any other failure has no body.
pub open spec fn not_created(error: ErrorKind) -> ResponseView {
    match error {
        ErrorKind::Constraint => ResponseView {
            status: Status::InternalServerError,
            body: BodyView::Text(Message::UnknownMenuItem),
        },
        ErrorKind::ConnectionFailure => failure(),
    }
}

/// The answer to a request for a table's orders: the rows, or "not found"
/// where there are none.
pub open spec fn listed(rows: Seq<CompleteOrderView>) -> ResponseView {
    if rows.len() > 0 {
        ResponseView { status: Status::Success, body: BodyView::Rows(rows) }
    } else {
        ResponseView { status: Status::NotFound, body: BodyView::Text(Message::NoOrdersFound) }
    }
}

/// The answer to a request for the latest order of a table and item: the
/// row, or "not found" where there is none.
pub open spec fn found(row: Option<CompleteOrderView>) -> ResponseView {
    match row {
        Some(row) => ResponseView { status: Status::Success, body: BodyView::Row(row) },
        None => ResponseView {
            status: Status::NotFound,
            body: BodyView::Text(Message::NoOrderFound),
        },
    }
}

/// The answer to a removal that took `count` orders away: a confirmation,
/// or "not found" where it took none.
pub open spec fn deleted(count: u64) -> ResponseView {
    if count > 0 {
        ResponseView { status: Status::Success, body: BodyView::Text(Message::OrderDeleted) }
    } else {
        ResponseView { status: Status::NotFound, body: BodyView::Text(Message::NothingToDelete) }
    }
}

/// The answer to the outcome of storing an order.
pub fn answer_created(outcome: Result<OrderId, ErrorKind>) -> (response: Response)
    ensures
        response@ == match outcome {
            Ok(id) => created(id),
            Err(error) => not_created(error),
        },
{
    match outcome {
        Ok(id) => Response { status: Status::Success, body: Body::Id(id) },
        Err(ErrorKind::Constraint) => Response {
            status: Status::InternalServerError,
            body: Body::Text(Message::UnknownMenuItem),
        },
        Err(ErrorKind::ConnectionFailure) => Response {
            status: Status::InternalServerError,
            body: Body::Empty,
        },
    }
}

/// The answer to the outcome of reading a table's orders.
pub fn answer_listed<E>(outcome: Result<Vec<CompleteOrder>, E>) -> (response: Response)
    ensures
        response@ == match outcome {
            Ok(rows) => listed(views(rows@)),
            Err(_) => failure(),
        },
{
    match outcome {
        Ok(rows) => {
            if rows.len() > 0 {
                Response { status: Status::Success, body: Body::Rows(rows) }
            } else {
                Response { status: Status::NotFound, body: Body::Text(Message::NoOrdersFound) }
            }
        },
        Err(_) => Response { status: Status::InternalServerError, body: Body::Empty },
    }
}

/// The answer to the outcome of reading the latest order of a table and
/// item.
pub fn answer_found<E>(outcome: Result<Option<CompleteOrder>, E>) -> (response: Response)
    ensures
        response@ == match outcome {
            Ok(Some(row)) => found(Some(row@)),
            Ok(None) => found(None),
            Err(_) => failure(),
        },
{
    match outcome {
        Ok(Some(row)) => Response { status: Status::Success, body: Body::Row(row) },
        Ok(None) => Response { status: Status::NotFound, body: Body::Text(Message::NoOrderFound) },
        Err(_) => Response { status: Status::InternalServerError, body: Body::Empty },
    }
}

/// The answer to the outcome of a removal.
pub fn answer_deleted<E>(outcome: Result<u64, E>) -> (response: Response)
    ensures
        response@ == match outcome {
            Ok(count) => deleted(count),
            Err(_) => failure(),
        },
{
    match outcome {
        Ok(count) => {
            if count > 0 {
                Response { status: Status::Success, body: Body::Text(Message::OrderDeleted) }
            } else {
                Response { status: Status::NotFound, body: Body::Text(Message::NothingToDelete) }
            }
        },
        Err(_) => Response { status: Status::InternalServerError, body: Body::Empty },
    }
}

/// Makes a new order from `form`, stores it in `repo` and answers with its
/// identifier. Where `repo` did not store it, the book is as before and the
/// answer is the one for the kind of error that `repo` gave; the answer names
/// the menu item as the reason only where the book did not accept the order.
pub fn create_order<R: OrderRepository>(repo: &mut R, form: &OrderRequest) -> (response: Response)
    ensures
        old(repo).book().wf(),
        final(repo).book().wf(),
        response@.status == Status::Success ==> {
            let order = final(repo).book().orders.last();
            &&& response@ == created(order.id)
            &&& order.id.is_random()
            &&& order.table_number == form.table_number
            &&& order.menu_item_id == form.menu_item_id
            &&& old(repo).book().accepts(order)
            &&& final(repo).book() == old(repo).book().with_order(order)
        },
        response@.status != Status::Success ==> {
            &&& final(repo).book() == old(repo).book()
            &&& (response@ == not_created(ErrorKind::Constraint) || response@ == not_created(
                ErrorKind::ConnectionFailure,
            ))
        },
        response@ == not_created(ErrorKind::Constraint) ==> exists|order: Order|
            {
                &&& order.id.is_random()
                &&& order.table_number == form.table_number
                &&& order.menu_item_id == form.menu_item_id
                &&& !(#[trigger] old(repo).book().accepts(order))
            },
{
    let order = Order::new(form.table_number, form.menu_item_id);
    match order.create(repo) {
        Ok(id) => answer_created(Ok(id)),
        Err(error) => answer_created(Err(R::error_kind(&error))),
    }
}

/// Answers with all orders of `table_number`, in the order in which `repo`
/// gave them, or with "not found" where the table has none.
pub fn get_table_orders<R: OrderRepository>(repo: &R, table_number: i32) -> (response: Response)
    ensures
        repo.book().wf(),
        response@ != failure() ==> {
            &&& response@ == listed(response@.body.rows())
            &&& response@.body.rows().to_multiset() == repo.book().rows_of_table(
                table_number,
            ).to_multiset()
        },
{
    let outcome = read_orders_by_table(repo, table_number);
    proof {
        if outcome is Ok && outcome->Ok_0@.len() == 0 {
            assert(views(outcome->Ok_0@) =~= Seq::empty());
        }
    }
    answer_listed(outcome)
}

/// Answers with the latest order for `menu_item_id` at `table_number`, or
/// with "not found" where the table has no order of that item.
pub fn get_order_from_menu_item_and_table<R: OrderRepository>(
    repo: &R,
    table_number: i32,
    menu_item_id: i32,
) -> (response: Response)
    ensures
        repo.book().wf(),
        response@ == found(repo.book().latest_row(menu_item_id, table_number)) || response@
            == failure(),
{
    answer_found(read_order_item_from_table(repo, menu_item_id, table_number))
}

/// Removes the latest order for `menu_item_id` at `table_number` and answers
/// with a confirmation, or with "not found" where there was nothing to
/// remove. Where `repo` failed, the book is as before.
pub fn delete_menu_item_from_order<R: OrderRepository>(
    repo: &mut R,
    table_number: i32,
    menu_item_id: i32,
) -> (response: Response)
    ensures
        old(repo).book().wf(),
        final(repo).book().wf(),
        response@ == failure() ==> final(repo).book() == old(repo).book(),
        response@ != failure() ==> {
            &&& response@ == deleted(old(repo).book().removed_count(menu_item_id, table_number))
            &&& final(repo).book() == old(repo).book().without_latest(menu_item_id, table_number)
        },
{
    answer_deleted(delete_order_item_from_table(repo, menu_item_id, table_number))
}

} // verus!
