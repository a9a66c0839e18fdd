//! Coins and their values in cents, and incrementing an optional number.

use vstd::prelude::*;

verus! {

/// A state whose quarter a `Coin::Quarter` may carry.
#[derive(Debug)]
pub enum UsState {
    Arizona,
    California,
    Colorado,
    Florida,
    Tennessee,
}

/// A United States coin.
pub enum Coin {
    Penny,
    Nickel,
    Dime,
    Quarter(UsState),
}

/// The value of a coin in cents.
pub open spec fn coin_value(coin: Coin) -> u8 {
    match coin {
        Coin::Penny => 1,
        Coin::Nickel => 5,
        Coin::Dime => 10,
        Coin::Quarter(_) => 25,
    }
}

/// Returns how many cents `coin` is worth: 1, 5, 10 or 25.
pub fn value_in_cents(coin: Coin) -> (cents: u8)
    ensures
        cents == coin_value(coin),
{
    match coin {
        Coin::Penny => 1,
        Coin::Nickel => 5,
        Coin::Dime => 10,
        Coin::Quarter(_state) => 25,
    }
}

/// Adds one to the number, if there is one: `None` stays `None`.
pub fn plus_one(x: Option<i32>) -> (r: Option<i32>)
    requires
        x matches Some(i) ==> i < i32::MAX,
    ensures
        x is None ==> r is None,
        x matches Some(i) ==> r == Some((i + 1) as i32),
{
    match x {
        None => None,
        Some(i) => Some(i + 1),
    }
}

} // verus!
