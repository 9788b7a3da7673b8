use rsheet::arith::{calculate, operate};
use rsheet::dice::{roll, Coin, Die};
use rsheet::lights::{collect_brightness_values, Light};
use rsheet::rc::MyRc;
use rsheet::textops::uppercase;
use rsheet::universe::get_universe_details;

#[test]
fn uppercase_maps_character_by_character() {
    assert_eq!(uppercase("hello"), "HELLO");
    assert_eq!(uppercase("MiXeD 42!"), "MIXED 42!");
    // One character may map to several.
    assert_eq!(uppercase("stra\u{df}e"), "STRASSE");
    assert_eq!(uppercase(""), "");
}

#[test]
fn universe_lookup_follows_the_divisibility_rules() {
    assert!(get_universe_details(1).is_none());
    assert!(get_universe_details(7).is_none());
    let three = get_universe_details(3).unwrap();
    assert_eq!(three.universe_name, "Star Wars");
    assert_eq!(three.universe_winner, "The Rebellion");
    assert_eq!(three.universe_population, u32::MAX);
    let five = get_universe_details(5).unwrap();
    assert_eq!(five.universe_name, "Miraculous");
    assert_eq!(five.universe_winner, "Hawk Moth");
    assert_eq!(five.universe_population, 22);
    let fifteen = get_universe_details(15).unwrap();
    assert_eq!(fifteen.universe_name, "Stardew Valley");
    assert_eq!(fifteen.universe_winner, "Jojo Corp");
    assert_eq!(fifteen.universe_population, 1);
}

#[test]
fn operate_applies_each_operator() {
    assert_eq!(operate(4, 3, '+'), Ok(7));
    assert_eq!(operate(4, 3, '-'), Ok(1));
    assert_eq!(operate(4, 3, '*'), Ok(12));
    assert_eq!(operate(7, 2, '/'), Ok(3));
    assert_eq!(operate(-7, 2, '/'), Ok(-3));
    assert_eq!(operate(4, 0, '/'), Err(()));
}

#[test]
fn calculate_chains_left_to_right() {
    assert_eq!(calculate(vec![1, 2, 3, 4, 5], vec!['+', '+', '+', '+']), Ok(15));
    assert_eq!(calculate(vec![1, 2, 3, 4, 5], vec!['+', '*', '-', '/']), Ok(1));
    assert_eq!(calculate(vec![9, 9, 9, 9, 9], vec!['*', '*', '*', '*']), Ok(59049));
    assert_eq!(calculate(vec![1, 2, 0, 4, 5], vec!['+', '/', '+', '+']), Err(()));
}

#[test]
fn lights_collect_in_preorder() {
    let mut root = Light::new();
    root.set_brightness(5);
    let mut left = Light::new();
    left.set_brightness(3);
    let mut right = Light::new();
    right.set_brightness(8);
    root.left = Some(Box::new(left));
    root.right = Some(Box::new(right));
    let mut values = Vec::new();
    collect_brightness_values(&Some(Box::new(root)), &mut values);
    assert_eq!(values, vec![5, 3, 8]);
}

#[test]
fn rolls_stay_within_the_faces() {
    for _ in 0..10 {
        let d = roll(Die::D6);
        assert!((1..=6).contains(&d));
        let c = roll(Coin);
        assert!((1..=2).contains(&c));
        let big = roll(Die::D20);
        assert!((1..=20).contains(&big));
    }
}

#[test]
fn shared_box_returns_its_value() {
    let rc = MyRc::new(42);
    assert_eq!(*rc.get(), 42);
    let words = MyRc::new("shared".to_string());
    assert_eq!(words.get(), "shared");
}
