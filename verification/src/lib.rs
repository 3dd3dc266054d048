//! Orders of a restaurant's tables against a fixed menu: the values, the
//! repository that stores them, and the rule that picks the latest order
//! of a table and menu item.

pub mod domain;
pub mod lifecycle;
pub mod memory;
pub mod menu;
pub mod order_book;
pub mod presentation;
pub mod repository;
