use wordfreq::coins::{value_in_cents, plus_one, Coin, UsState};
use wordfreq::fibonacci::fibonacci;
use wordfreq::messages::{IpAddrKind, Message, route};
use wordfreq::rect::Rectangle;
use wordfreq::strings::{change, calculate_length, dangle, no_dangle, hello_world};

#[test]
fn fibonacci_small_values() {
    assert_eq!(fibonacci(0), 0);
    assert_eq!(fibonacci(1), 1);
    assert_eq!(fibonacci(2), 1);
    assert_eq!(fibonacci(10), 55);
    assert_eq!(fibonacci(20), 6765);
}

#[test]
fn coin_values() {
    assert_eq!(value_in_cents(Coin::Penny), 1);
    assert_eq!(value_in_cents(Coin::Nickel), 5);
    assert_eq!(value_in_cents(Coin::Dime), 10);
    assert_eq!(value_in_cents(Coin::Quarter(UsState::Florida)), 25);
    assert_eq!(value_in_cents(Coin::Quarter(UsState::Arizona)), 25);
}

#[test]
fn plus_one_values() {
    assert_eq!(plus_one(Some(5)), Some(6));
    assert_eq!(plus_one(Some(-1)), Some(0));
    assert_eq!(plus_one(None), None);
}

#[test]
fn change_appends_world() {
    let mut s = String::from("hello");
    change(&mut s);
    assert_eq!(s, "hello, world");
}

#[test]
fn calculate_length_counts_characters() {
    let s = String::from("hello");
    assert_eq!(calculate_length(&s), 5);
    let empty = String::new();
    assert_eq!(calculate_length(&empty), 0);
}

#[test]
fn owned_greetings() {
    assert_eq!(dangle(), "hello");
    assert_eq!(no_dangle(), "hello");
}

#[test]
fn square_has_equal_sides() {
    let sq = Rectangle::square(3);
    assert_eq!(sq.width, 3);
    assert_eq!(sq.height, 3);
    assert_eq!(sq.area(), 9);
}

#[test]
fn rectangle_area_and_width() {
    let rect = Rectangle { width: 30, height: 50 };
    assert_eq!(rect.area(), 1500);
    assert!(rect.width());
    let flat = Rectangle { width: 0, height: 50 };
    assert!(!flat.width());
}

#[test]
fn messages_and_routing_run() {
    let m = Message::Write(String::from("hello"));
    m.call();
    Message::Quit.call();
    Message::Move { x: 1, y: 2 }.call();
    Message::ChangeColor(0, 0, 0).call();
    route(IpAddrKind::V4(127, 0, 0, 1));
    route(IpAddrKind::V6(String::from("::1")));
    hello_world();
}
