use restaurant::domain::{MenuItem, Order, OrderId, Timestamp};
use restaurant::menu::{
    menu_is_seeded, seed_menu, COOKING_TIME_BELOW, COOKING_TIME_FROM, MENU_SIZE,
};

fn order(bits: u128, secs: i64, nanos: u32) -> Order {
    Order {
        id: OrderId::from_u128(bits),
        table_number: 1,
        menu_item_id: 1,
        created_at: Timestamp { secs, nanos },
    }
}

#[test]
fn the_version_is_the_high_half_of_the_seventh_byte() {
    let id = OrderId::from_u128(0x02f09a3f_1624_3b1d_8409_44eff7708208);
    assert_eq!(id.get_version_num(), 3);
    assert_eq!(id.as_u128(), 0x02f09a3f_1624_3b1d_8409_44eff7708208);
    assert_eq!(OrderId::from_u128(0).get_version_num(), 0);
    assert_eq!(OrderId::from_u128(u128::MAX).get_version_num(), 15);
    assert_eq!(OrderId::from_u128(0x4000_0000_0000_0000_0000).get_version_num(), 4);
    assert_eq!(OrderId::from_u128(0xffff_ffff_ffff_0fff_ffff_ffff_ffff_ffff).get_version_num(), 0);
}

#[test]
fn a_fresh_identifier_agrees_with_the_identifier_library() {
    let order = Order::new(1, 1);
    let outside = uuid::Uuid::from_u128(order.id.as_u128());
    assert_eq!(outside.get_version_num(), 4);
    assert_eq!(outside.get_version(), Some(uuid::Version::Random));
    assert_eq!(outside.get_variant(), uuid::Variant::RFC4122);
    assert_eq!(order.id.get_version_num(), outside.get_version_num());
    assert_eq!(order.id.as_u128() & 0xf000_c000_0000_0000_0000, 0x4000_8000_0000_0000_0000);
}

#[test]
fn the_creation_time_is_the_time_of_the_call() {
    let before = chrono::Utc::now();
    let order = Order::new(1, 1);
    let after = chrono::Utc::now();
    let created =
        chrono::DateTime::from_timestamp(order.created_at.secs, order.created_at.nanos).unwrap();
    // The system clock may be set back between two readings; a minute covers that.
    assert!(created >= before - chrono::TimeDelta::seconds(60));
    assert!(created <= after + chrono::TimeDelta::seconds(60));
    assert!(order.created_at.nanos < 1_000_000_000);
    assert!(order.created_at.secs >= 0);
}

#[test]
fn instants_are_ordered_by_seconds_and_then_by_nanoseconds() {
    let t = |secs: i64, nanos: u32| Timestamp { secs, nanos };
    assert!(t(1, 999_999_999).is_before(&t(2, 0)));
    assert!(t(2, 0).is_before(&t(2, 1)));
    assert!(!t(2, 1).is_before(&t(2, 1)));
    assert!(!t(2, 1).is_before(&t(2, 0)));
    assert!(!t(3, 0).is_before(&t(2, 999_999_999)));
    assert!(t(-1, 5).is_before(&t(0, 0)));
    assert!(t(i64::MIN, u32::MAX).is_before(&t(i64::MAX, 0)));
    assert!(!t(i64::MAX, 0).is_before(&t(i64::MIN, u32::MAX)));
}

#[test]
fn the_newer_order_is_the_later_one_and_then_the_greater_identifier() {
    assert!(order(1, 10, 0).is_newer_than(&order(2, 9, 999_999_999)));
    assert!(!order(2, 9, 999_999_999).is_newer_than(&order(1, 10, 0)));
    assert!(order(1, 10, 1).is_newer_than(&order(2, 10, 0)));
    assert!(order(2, 10, 0).is_newer_than(&order(1, 10, 0)));
    assert!(!order(1, 10, 0).is_newer_than(&order(2, 10, 0)));
    assert!(!order(1, 10, 0).is_newer_than(&order(1, 10, 0)));
    assert!(order(u128::MAX, 10, 0).is_newer_than(&order(u128::MAX - 1, 10, 0)));
}

#[test]
fn a_menu_of_fifty_items_is_complete() {
    assert_eq!(MENU_SIZE, 50);
    assert!(!menu_is_seeded(0));
    assert!(!menu_is_seeded(49));
    assert!(menu_is_seeded(50));
    assert!(menu_is_seeded(51));
    assert!(menu_is_seeded(usize::MAX));
}

#[test]
fn a_seeded_menu_files_each_dish_under_its_position() {
    assert_eq!(COOKING_TIME_FROM, 5);
    assert_eq!(COOKING_TIME_BELOW, 15);
    assert_eq!(seed_menu(&vec![]), Vec::<MenuItem>::new());
    let names: Vec<String> = (0..300).map(|i| format!("dish number {}", i)).collect();
    let menu = seed_menu(&names);
    assert_eq!(menu.len(), 300);
    for (i, item) in menu.iter().enumerate() {
        assert_eq!(item.id, i as i32);
        assert_eq!(item.item_name, names[i]);
        assert!(5 <= item.cooking_time && item.cooking_time < 15);
    }
    // Ten values are possible; three hundred draws do not all give the same one.
    assert!(menu.iter().any(|item| item.cooking_time != menu[0].cooking_time));
}
