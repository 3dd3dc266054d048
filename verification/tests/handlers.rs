use rand::Rng;
use restaurant::domain::{
    delete_order_item_from_table, read_order_item_from_table, read_orders_by_table, CompleteOrder,
    MenuItem, Order, OrderId, Timestamp,
};
use restaurant::memory::MemoryOrderRepository;
use restaurant::menu::{seed_menu, MENU_SIZE};
use restaurant::order_book::OrderBook;
use restaurant::presentation::{
    answer_created, answer_deleted, answer_found, answer_listed, create_order,
    delete_menu_item_from_order, get_order_from_menu_item_and_table, get_table_orders, Body,
    Message, OrderRequest, Response, Status,
};
use restaurant::repository::{OrderRepository, ErrorKind};

// Test parameters
const RESTAURANT_TABLES_QTY: usize = 500;
const CONCURRENT_CLIENTS_QTY: usize = 50;
const TOTAL_REQS_PER_CLIENT: usize = 25;
// Total registered items when setting up the menu.
const TOTAL_MENU_ITEMS_QTY: usize = 50;

fn seeded_menu_repository() -> MemoryOrderRepository {
    let names: Vec<String> = (0..MENU_SIZE).map(|i| format!("dish {}", i)).collect();
    let mut repo = MemoryOrderRepository::new();
    for item in seed_menu(&names) {
        assert_eq!(repo.insert_menu_item(item), Ok(()));
    }
    repo
}

/// A store whose connection is down: every call but the update fails.
struct Unplugged;

impl OrderRepository for Unplugged {
    type ErrT = ErrorKind;

    fn book(&self) -> OrderBook {
        unreachable!()
    }

    fn kind(_error: ErrorKind) -> ErrorKind {
        unreachable!()
    }

    fn error_kind(error: &ErrorKind) -> ErrorKind {
        *error
    }

    fn create(&mut self, _order: &Order) -> Result<OrderId, ErrorKind> {
        Err(ErrorKind::ConnectionFailure)
    }

    fn read_orders_by_table(&self, _table_number: i32) -> Result<Vec<CompleteOrder>, ErrorKind> {
        Err(ErrorKind::ConnectionFailure)
    }

    fn read_order_item_from_table(
        &self,
        _menu_item_id: i32,
        _table_number: i32,
    ) -> Result<Option<CompleteOrder>, ErrorKind> {
        Err(ErrorKind::ConnectionFailure)
    }

    fn update_order(&self) -> Result<(), ErrorKind> {
        Ok(())
    }

    fn delete_order_item_from_table(
        &mut self,
        _menu_item_id: i32,
        _table_number: i32,
    ) -> Result<u64, ErrorKind> {
        Err(ErrorKind::ConnectionFailure)
    }
}

/// A store that fails with an error type of its own, and refuses every
/// order for the data's sake.
struct Talkative;

impl OrderRepository for Talkative {
    type ErrT = String;

    fn book(&self) -> OrderBook {
        unreachable!()
    }

    fn kind(_error: String) -> ErrorKind {
        unreachable!()
    }

    fn error_kind(error: &String) -> ErrorKind {
        if error.starts_with("cannot store") {
            ErrorKind::Constraint
        } else {
            ErrorKind::ConnectionFailure
        }
    }

    fn create(&mut self, order: &Order) -> Result<OrderId, String> {
        Err(format!("cannot store an order of table {}", order.table_number))
    }

    fn read_orders_by_table(&self, table_number: i32) -> Result<Vec<CompleteOrder>, String> {
        Err(format!("cannot read table {}", table_number))
    }

    fn read_order_item_from_table(
        &self,
        menu_item_id: i32,
        table_number: i32,
    ) -> Result<Option<CompleteOrder>, String> {
        Err(format!("cannot read item {} of table {}", menu_item_id, table_number))
    }

    fn update_order(&self) -> Result<(), String> {
        Ok(())
    }

    fn delete_order_item_from_table(
        &mut self,
        menu_item_id: i32,
        table_number: i32,
    ) -> Result<u64, String> {
        Err(format!("cannot remove item {} of table {}", menu_item_id, table_number))
    }
}

fn row(bits: u128, name: &str) -> CompleteOrder {
    CompleteOrder {
        order_id: OrderId::from_u128(bits),
        table_number: 1,
        menu_item_id: 2,
        created_at: Timestamp { secs: 3, nanos: 4 },
        item_name: name.to_string(),
        cooking_time: 5,
    }
}

/// Clients that ask for random things, one request after the other.
#[test]
fn simulate_client_behavior() {
    let mut repo = seeded_menu_repository();
    let mut rng = rand::thread_rng();
    let mut stored: u64 = 0;
    let mut removed: u64 = 0;
    for _client_number in 1..=CONCURRENT_CLIENTS_QTY {
        let menu_item_id = rand::random::<usize>() % TOTAL_MENU_ITEMS_QTY;
        let table_number = rand::random::<usize>() % RESTAURANT_TABLES_QTY;
        for _ in 1..=TOTAL_REQS_PER_CLIENT {
            match rng.gen_range(1..=4) {
                1 => {
                    // simulate create
                    let response = create_order(
                        &mut repo,
                        &OrderRequest {
                            table_number: table_number as i32,
                            menu_item_id: menu_item_id as i32,
                        },
                    );
                    assert_eq!(response.status, Status::Success);
                    assert!(matches!(response.body, Body::Id(id) if id.get_version_num() == 4));
                    stored += 1;
                }
                2 => {
                    // simulate query all items from table request
                    let response = get_table_orders(&repo, table_number as i32);
                    assert_ne!(response.status, Status::InternalServerError);
                    match response.body {
                        Body::Rows(rows) => {
                            assert_eq!(response.status, Status::Success);
                            assert!(!rows.is_empty());
                            assert!(rows.iter().all(|r| r.table_number == table_number as i32));
                        }
                        body => {
                            assert_eq!(response.status, Status::NotFound);
                            assert_eq!(body, Body::Text(Message::NoOrdersFound));
                        }
                    }
                }
                3 => {
                    // simulate query specific item from table request
                    let response = get_order_from_menu_item_and_table(
                        &repo,
                        table_number as i32,
                        menu_item_id as i32,
                    );
                    assert_ne!(response.status, Status::InternalServerError);
                }
                4 => {
                    // simulate delete specific item from specific table request
                    let response = delete_menu_item_from_order(
                        &mut repo,
                        table_number as i32,
                        menu_item_id as i32,
                    );
                    assert_ne!(response.status, Status::InternalServerError);
                    if response.status == Status::Success {
                        removed += 1;
                    }
                }
                _ => unreachable!(),
            }
        }
    }
    let mut left: u64 = 0;
    for table_number in 0..RESTAURANT_TABLES_QTY {
        left += read_orders_by_table(&repo, table_number as i32).unwrap().len() as u64;
    }
    assert_eq!(stored, removed + left);
}

#[test]
fn the_status_numbers() {
    assert_eq!(Status::Success.code(), 200);
    assert_eq!(Status::NotFound.code(), 404);
    assert_eq!(Status::InternalServerError.code(), 500);
}

#[test]
fn the_sentences() {
    assert_eq!(Message::UnknownMenuItem.text(), "This menu item doesn't exist.");
    assert_eq!(Message::NoOrdersFound.text(), "No orders found");
    assert_eq!(Message::NoOrderFound.text(), "No order found.");
    assert_eq!(Message::OrderDeleted.text(), "Order deleted.");
    assert_eq!(Message::NothingToDelete.text(), "No orders found to delete.");
}

#[test]
fn the_answer_to_each_outcome_of_a_create() {
    let id = OrderId::from_u128(77);
    assert_eq!(answer_created(Ok(id)), Response { status: Status::Success, body: Body::Id(id) });
    assert_eq!(
        answer_created(Err(ErrorKind::Constraint)),
        Response {
            status: Status::InternalServerError,
            body: Body::Text(Message::UnknownMenuItem)
        }
    );
    assert_eq!(
        answer_created(Err(ErrorKind::ConnectionFailure)),
        Response { status: Status::InternalServerError, body: Body::Empty }
    );
}

#[test]
fn the_answer_to_each_outcome_of_a_table_read() {
    let rows = vec![row(1, "Soup"), row(2, "Stew")];
    assert_eq!(
        answer_listed::<String>(Ok(rows.clone())),
        Response { status: Status::Success, body: Body::Rows(rows) }
    );
    assert_eq!(
        answer_listed::<String>(Ok(vec![])),
        Response { status: Status::NotFound, body: Body::Text(Message::NoOrdersFound) }
    );
    assert_eq!(
        answer_listed(Err("down")),
        Response { status: Status::InternalServerError, body: Body::Empty }
    );
}

#[test]
fn the_answer_to_each_outcome_of_an_item_read() {
    assert_eq!(
        answer_found::<String>(Ok(Some(row(1, "Soup")))),
        Response { status: Status::Success, body: Body::Row(row(1, "Soup")) }
    );
    assert_eq!(
        answer_found::<String>(Ok(None)),
        Response { status: Status::NotFound, body: Body::Text(Message::NoOrderFound) }
    );
    assert_eq!(
        answer_found(Err(ErrorKind::ConnectionFailure)),
        Response { status: Status::InternalServerError, body: Body::Empty }
    );
}

#[test]
fn the_answer_to_each_outcome_of_a_removal() {
    assert_eq!(
        answer_deleted::<String>(Ok(1)),
        Response { status: Status::Success, body: Body::Text(Message::OrderDeleted) }
    );
    assert_eq!(
        answer_deleted::<String>(Ok(u64::MAX)),
        Response { status: Status::Success, body: Body::Text(Message::OrderDeleted) }
    );
    assert_eq!(
        answer_deleted::<String>(Ok(0)),
        Response { status: Status::NotFound, body: Body::Text(Message::NothingToDelete) }
    );
    assert_eq!(
        answer_deleted(Err(ErrorKind::Constraint)),
        Response { status: Status::InternalServerError, body: Body::Empty }
    );
}

#[test]
fn a_request_is_created_read_and_deleted() {
    let mut repo = MemoryOrderRepository::new();
    let soup = MenuItem { id: 1, item_name: "Soup".to_string(), cooking_time: 10 };
    assert_eq!(repo.insert_menu_item(soup), Ok(()));
    let form = OrderRequest { table_number: 5, menu_item_id: 1 };

    let created = create_order(&mut repo, &form);
    assert_eq!(created.status, Status::Success);
    let id = match created.body {
        Body::Id(id) => id,
        other => panic!("no identifier in {:?}", other),
    };
    assert_eq!(id.get_version_num(), 4);

    let listed = get_table_orders(&repo, 5);
    assert_eq!(listed.status, Status::Success);
    match listed.body {
        Body::Rows(rows) => {
            assert_eq!(rows.len(), 1);
            assert_eq!(rows[0].order_id, id);
            assert_eq!(rows[0].table_number, 5);
            assert_eq!(rows[0].menu_item_id, 1);
            assert_eq!(rows[0].item_name, "Soup");
            assert_eq!(rows[0].cooking_time, 10);
        }
        other => panic!("no rows in {:?}", other),
    }

    // The table comes first and the menu item second, as in the path of the request.
    let found = get_order_from_menu_item_and_table(&repo, 5, 1);
    assert_eq!(found.status, Status::Success);
    assert!(matches!(found.body, Body::Row(ref row) if row.order_id == id));
    let swapped = get_order_from_menu_item_and_table(&repo, 1, 5);
    assert_eq!(
        swapped,
        Response { status: Status::NotFound, body: Body::Text(Message::NoOrderFound) }
    );

    let nothing = delete_menu_item_from_order(&mut repo, 1, 5);
    assert_eq!(
        nothing,
        Response { status: Status::NotFound, body: Body::Text(Message::NothingToDelete) }
    );
    let deleted = delete_menu_item_from_order(&mut repo, 5, 1);
    assert_eq!(
        deleted,
        Response { status: Status::Success, body: Body::Text(Message::OrderDeleted) }
    );
    let again = delete_menu_item_from_order(&mut repo, 5, 1);
    assert_eq!(
        again,
        Response { status: Status::NotFound, body: Body::Text(Message::NothingToDelete) }
    );
    assert_eq!(
        get_table_orders(&repo, 5),
        Response { status: Status::NotFound, body: Body::Text(Message::NoOrdersFound) }
    );
    assert_eq!(
        get_order_from_menu_item_and_table(&repo, 5, 1),
        Response { status: Status::NotFound, body: Body::Text(Message::NoOrderFound) }
    );
}

#[test]
fn a_request_for_an_unknown_menu_item_is_answered_with_the_reason() {
    let mut repo = seeded_menu_repository();
    let response = create_order(&mut repo, &OrderRequest { table_number: 5, menu_item_id: 50 });
    assert_eq!(response.status.code(), 500);
    assert_eq!(response.body, Body::Text(Message::UnknownMenuItem));
    assert_eq!(get_table_orders(&repo, 5).status, Status::NotFound);
    let response = create_order(&mut repo, &OrderRequest { table_number: 5, menu_item_id: -1 });
    assert_eq!(response.body, Body::Text(Message::UnknownMenuItem));
}

#[test]
fn a_store_that_is_down_is_answered_with_an_empty_failure() {
    let failure = Response { status: Status::InternalServerError, body: Body::Empty };
    let mut store = Unplugged;
    let form = OrderRequest { table_number: 5, menu_item_id: 1 };
    assert_eq!(create_order(&mut store, &form), failure);
    assert_eq!(get_table_orders(&store, 5), failure);
    assert_eq!(get_order_from_menu_item_and_table(&store, 5, 1), failure);
    assert_eq!(delete_menu_item_from_order(&mut store, 5, 1), failure);
    assert_eq!(store.update_order(), Ok(()));
}

#[test]
fn what_a_store_reports_is_handed_on_as_it_is() {
    let mut store = Talkative;
    let order = Order::new(3, 7);
    assert_eq!(order.create(&mut store), Err("cannot store an order of table 3".to_string()));
    assert_eq!(read_orders_by_table(&store, 4), Err("cannot read table 4".to_string()));
    assert_eq!(
        read_order_item_from_table(&store, 8, 9),
        Err("cannot read item 8 of table 9".to_string())
    );
    assert_eq!(
        delete_order_item_from_table(&mut store, 8, 9),
        Err("cannot remove item 8 of table 9".to_string())
    );
    assert_eq!(Talkative::error_kind(&order.create(&mut store).unwrap_err()), ErrorKind::Constraint);
    let failure = Response { status: Status::InternalServerError, body: Body::Empty };
    assert_eq!(
        create_order(&mut store, &OrderRequest { table_number: 3, menu_item_id: 7 }),
        Response {
            status: Status::InternalServerError,
            body: Body::Text(Message::UnknownMenuItem)
        }
    );
    assert_eq!(get_table_orders(&store, 4), failure);
    assert_eq!(get_order_from_menu_item_and_table(&store, 9, 8), failure);
    assert_eq!(delete_menu_item_from_order(&mut store, 9, 8), failure);
}

#[test]
fn the_kind_of_an_error_of_the_memory_store_is_the_error() {
    assert_eq!(MemoryOrderRepository::error_kind(&ErrorKind::Constraint), ErrorKind::Constraint);
    assert_eq!(
        MemoryOrderRepository::error_kind(&ErrorKind::ConnectionFailure),
        ErrorKind::ConnectionFailure
    );
}
