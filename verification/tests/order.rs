use chrono::Utc;
use matchcore::order::{Mode, Order, Side};
use uuid::Uuid;

#[test]
fn test_order_creation() {
    let owner = Uuid::new_v4().as_u128();
    let amount: u64 = 100;
    let price = 50;
    let side = Side::Ask;
    let execution = Mode::Limit;

    let order = Order::new(owner, amount, price, side.clone(), execution.clone());

    assert_eq!(order.owner, owner);
    assert_eq!(order.quantity, amount);
    assert_eq!(order.price, price);
    assert_eq!(order.executed, 0);
    assert_eq!(order.side, side);
    assert_eq!(order.mode, execution);

    assert!(Uuid::parse_str(&Uuid::from_u128(order.id).to_string()).is_ok());

    let now = Utc::now().timestamp_millis();
    assert!((now - order.timestamp).abs() < 1000);

    assert_eq!(order.is_complete(), false);
    assert_eq!(order.get_pending(), amount);
}

#[test]
fn test_order_execution() {
    let owner = Uuid::new_v4().as_u128();
    let amount = 100;
    let price = 50;
    let side = Side::Ask;
    let execution = Mode::Limit;

    let mut order = Order::new(owner, amount, price, side.clone(), execution.clone());

    assert_eq!(order.is_complete(), false);
    assert_eq!(order.get_pending(), amount);

    let sustract = 10;
    let remainder = order.execute(amount - sustract);

    assert_eq!(order.is_complete(), false);
    assert_eq!(order.get_pending(), sustract);
    assert_eq!(remainder, 0);
}

#[test]
fn test_order_execution_with_remainder() {
    let owner = Uuid::new_v4().as_u128();
    let amount = 100;
    let price = 50;
    let side = Side::Ask;
    let execution = Mode::Limit;

    let mut order = Order::new(owner, amount, price, side.clone(), execution.clone());

    assert_eq!(order.is_complete(), false);
    assert_eq!(order.get_pending(), amount);

    let sustract = 110;
    let remainder = order.execute(sustract);

    assert_eq!(order.is_complete(), true);
    assert_eq!(order.get_pending(), 0);
    assert_eq!(remainder, 10);
}

#[test]
fn execute_exact_fill() {
    let mut order = Order::new(3, 100, 50, Side::Bid, Mode::Market);

    let remainder = order.execute(100);

    assert_eq!(remainder, 0);
    assert_eq!(order.executed, 100);
    assert!(order.is_complete());
    assert_eq!(order.get_pending(), 0);
}

#[test]
fn execute_never_exceeds_quantity() {
    let mut order = Order::new(3, 100, 50, Side::Ask, Mode::Limit);

    let first = order.execute(90);
    assert_eq!(order.executed, 90);
    assert_eq!(first, 0);
    assert_eq!(order.is_complete(), false);
    assert_eq!(order.get_pending(), 10);

    let second = order.execute(90);
    assert_eq!(order.executed, 100);
    assert_eq!(second, 80);
    assert!(order.is_complete());
    assert_eq!(order.get_pending(), 0);

    let third = order.execute(5);
    assert_eq!(order.executed, 100);
    assert_eq!(third, 5);
    assert!(order.executed <= order.quantity);
}
