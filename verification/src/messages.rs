//! Enumerated types carrying data: address kinds and messages.

use vstd::prelude::*;

verus! {

/// An IP address: four octets, or a textual form of the newer kind.
pub enum IpAddrKind {
    V4(u8, u8, u8, u8),
    V6(String),
}

/// A message a component could receive.
pub enum Message {
    Quit,
    Move { x: i32, y: i32 },
    Write(String),
    ChangeColor(i32, i32, i32),
}

impl Message {
    /// Handles the message. Nothing is observed of the call: the handler
    /// neither changes the message nor returns anything.
    pub fn call(&self) {
    }
}

/// Routes a packet toward an address of the given kind. Routing keeps no
/// state and returns nothing.
#[allow(unused_variables)]
pub fn route(ip_kind: IpAddrKind) {
}

} // verus!
