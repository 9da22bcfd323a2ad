use workshop::add_one;
use workshop::add_rand;
use workshop::adding::add_two;
use workshop::adding::greeting;
use workshop::adding::Guess;
use workshop::adding::Rectangle;

#[test]
fn it_adds_one() {
    assert_eq!(3, add_one(2));
}

#[test]
fn will_pass() {
    assert_eq!(2 + 2, 4);
}

#[test]
fn will_work_result() -> Result<(), String> {
    if 2 + 2 == 4 {
        Ok(())
    } else {
        Err(String::from("two plus two does not equal four"))
    }
}

#[test]
fn larger_can_hold_smaller() {
    let larger = Rectangle { width: 8, height: 7 };
    let smaller = Rectangle { width: 5, height: 1 };

    assert!(larger.can_hold(&smaller));
}

#[test]
fn smaller_cannot_hold_larger() {
    let larger = Rectangle { width: 8, height: 7 };
    let smaller = Rectangle { width: 5, height: 1 };

    assert!(!smaller.can_hold(&larger));
}

#[test]
fn it_adds_two() {
    assert_eq!(4, add_two(2));
}

#[test]
fn greeting_contains_name() {
    let result = greeting("Carol");
    assert!(
        result.contains("Carol"),
        "Greeting did not contain name, value was `{}`",
        result
    );
}

#[test]
fn greeting_is_exact() {
    assert_eq!(greeting("Carol"), "Hello Carol!");
}

#[test]
fn guess_keeps_its_value() {
    let _ = Guess::new(1);
    let _ = Guess::new(100);
    let _ = Guess::new(42);
}

#[test]
fn equal_rectangles_cannot_hold_each_other() {
    let a = Rectangle { width: 5, height: 5 };
    let b = Rectangle { width: 5, height: 5 };
    assert!(!a.can_hold(&b));
    assert!(!b.can_hold(&a));
}

#[test]
fn add_rand_runs() {
    let _ = add_rand(0);
    let _ = add_rand(i32::MAX);
}
