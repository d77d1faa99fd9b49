use dispatcher::closures::{use_closure, use_closure_once, use_mut_closure};
use std::cell::RefCell;

#[test]
fn mut_closure_is_called_with_hello() {
    let mut seen = String::new();
    use_mut_closure(|greeting: &str| seen.push_str(greeting));
    assert_eq!(seen, "Hello");
}

#[test]
fn closure_is_called_with_hello() {
    let seen = RefCell::new(String::new());
    use_closure(|greeting: &str| seen.borrow_mut().push_str(greeting));
    assert_eq!(seen.into_inner(), "Hello");
}

#[test]
fn closure_once_is_called_with_goodbye() {
    let seen = RefCell::new(String::new());
    let name = String::from("Mathias");
    use_closure_once(move |greeting: &str| {
        let mut s = seen.borrow_mut();
        s.push_str(greeting);
        s.push_str(", ");
        s.push_str(&name);
        assert_eq!(*s, "Goodbye, Mathias");
    });
}
