//! The menu that a new repository starts with.

use crate::domain::MenuItem;
use rand::Rng;
use vstd::prelude::*;

verus! {

/// How many items a complete menu has.
pub const MENU_SIZE: usize = 50;

/// The shortest cooking time that a seeded menu item gets, in minutes.
pub const COOKING_TIME_FROM: i32 = 5;

/// The cooking times of seeded menu items stay under this many minutes.
pub const COOKING_TIME_BELOW: i32 = 15;

/// Whether a stored menu of `stored` items is complete, so that it is kept
/// as it is and not written anew.
pub fn menu_is_seeded(stored: usize) -> (seeded: bool)
    ensures
        seeded == (stored >= MENU_SIZE),
{
    stored >= MENU_SIZE
}

/// Calls `rand::Rng::gen_range` on `rand::thread_rng()` with the half-open
/// range from `low` to `high`. The result lies in that range; which value of
/// it comes is up to the generator. `gen_range` panics on an empty range,
/// which the contract leaves out.
#[verifier::external_body]
fn random_in(low: i32, high: i32) -> (value: i32)
    requires
        low < high,
    ensures
        low <= value < high,
{
    rand::thread_rng().gen_range(low..high)
}

/// A menu of the dishes `names`: each dish is filed under its position in
/// `names` and gets a random cooking time of 5 to 14 minutes. There may be
/// no more dishes than there are identifiers.
pub fn seed_menu(names: &Vec<String>) -> (menu: Vec<MenuItem>)
    requires
        names.len() <= i32::MAX,
    ensures
        menu.len() == names.len(),
        forall|i: int|
            0 <= i < menu.len() ==> {
                &&& (#[trigger] menu[i]).id == i
                &&& menu[i].item_name@ == names[i]@
                &&& COOKING_TIME_FROM <= menu[i].cooking_time < COOKING_TIME_BELOW
            },
{
    let mut menu: Vec<MenuItem> = Vec::new();
    let mut i: usize = 0;
    while i < names.len()
        invariant
            i <= names.len() <= i32::MAX,
            menu.len() == i,
            forall|k: int|
                0 <= k < i ==> {
                    &&& (#[trigger] menu[k]).id == k
                    &&& menu[k].item_name@ == names[k]@
                    &&& COOKING_TIME_FROM <= menu[k].cooking_time < COOKING_TIME_BELOW
                },
        decreases names.len() - i,
    {
        let item = MenuItem {
            id: i as i32,
            item_name: names[i].clone(),
            cooking_time: random_in(COOKING_TIME_FROM, COOKING_TIME_BELOW),
        };
        menu.push(item);
        i += 1;
    }
    menu
}

} // verus!
