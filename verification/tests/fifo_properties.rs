use matchcore::linked_hashmap::LinkedHashmap;
use matchcore::order::{Mode, Order, Side};

fn order_with_id(id: u128) -> Order {
    Order {
        id,
        owner: 1,
        quantity: 10,
        price: 5,
        executed: 0,
        timestamp: 0,
        side: Side::Ask,
        mode: Mode::Limit,
    }
}

#[test]
fn push_duplicate_id_is_noop() {
    let mut linked: LinkedHashmap<Order> = LinkedHashmap::new();
    let first = order_with_id(42);
    let mut twin = order_with_id(42);
    twin.price = 99;

    linked.push(first);
    linked.push(twin);

    assert_eq!(linked.len(), 1);
    assert_eq!(linked.get(&42).unwrap().price, 5);
}

#[test]
fn push_first_prepends() {
    let mut linked: LinkedHashmap<Order> = LinkedHashmap::new();
    linked.push(order_with_id(1));
    linked.push_first(order_with_id(2));
    linked.push_first(order_with_id(2));

    assert_eq!(linked.len(), 2);
    assert_eq!(linked.peek().unwrap().id, 2);
    assert_eq!(linked.peek_tail().unwrap().id, 1);
}

#[test]
fn pop_on_empty_returns_none() {
    let mut linked: LinkedHashmap<Order> = LinkedHashmap::new();

    assert!(linked.pop().is_none());
    assert!(linked.is_empty());
    assert_eq!(linked.len(), 0);
    assert!(linked.peek().is_none());
    assert!(linked.peek_tail().is_none());
}

#[test]
fn remove_only_element_empties_boundaries() {
    let mut linked: LinkedHashmap<Order> = LinkedHashmap::new();
    linked.push(order_with_id(8));

    let removed = linked.remove(&8);

    assert_eq!(removed.unwrap().id, 8);
    assert!(!linked.contains(&8));
    assert_eq!(linked.len(), 0);
    assert!(linked.peek().is_none());
    assert!(linked.peek_tail().is_none());
}

#[test]
fn round_trip_keeps_insertion_order() {
    let mut linked: LinkedHashmap<Order> = LinkedHashmap::new();
    let ids: [u128; 5] = [11, 7, 29, 3, 17];
    for id in ids {
        linked.push(order_with_id(id));
    }
    assert_eq!(linked.len(), 5);

    for id in ids {
        assert_eq!(linked.pop().unwrap().id, id);
    }
    assert!(linked.is_empty());
}

#[test]
fn traversal_order_modulo_removals() {
    let mut linked: LinkedHashmap<Order> = LinkedHashmap::new();
    let a: u128 = 100;
    let b: u128 = 200;
    let c: u128 = 300;
    linked.push(order_with_id(a));
    linked.push(order_with_id(b));
    linked.push(order_with_id(c));

    let removed = linked.remove(&b);
    assert_eq!(removed.unwrap().id, b);
    assert_eq!(linked.len(), 2);
    assert!(!linked.contains(&b));

    assert_eq!(linked.peek().unwrap().id, a);
    assert_eq!(linked.pop().unwrap().id, a);

    assert_eq!(linked.len(), 1);
    assert_eq!(linked.peek().unwrap().id, c);
    assert_eq!(linked.peek_tail().unwrap().id, c);
}

#[test]
fn get_mut_fills_in_place() {
    let mut linked: LinkedHashmap<Order> = LinkedHashmap::new();
    linked.push(order_with_id(1));
    linked.push(order_with_id(2));
    linked.push(order_with_id(3));

    let resting = linked.get_mut(&2).unwrap();
    let remainder = resting.execute(4);
    assert_eq!(remainder, 0);

    assert_eq!(linked.get(&2).unwrap().executed, 4);
    assert_eq!(linked.get(&2).unwrap().get_pending(), 6);
    assert!(linked.get_mut(&99).is_none());

    assert_eq!(linked.pop().unwrap().id, 1);
    assert_eq!(linked.pop().unwrap().id, 2);
    assert_eq!(linked.pop().unwrap().id, 3);
}
