use iced_macroquad::global::init_single_thread;
use iced_macroquad::global::try_init_single_thread;
use iced_macroquad::global::Once;

#[test]
fn context_is_made_once() {
    let mut once = Once::new();
    assert!(!once.done());
    let mut calls = 0;
    assert_eq!(
        try_init_single_thread(&mut once, || {
            calls += 1;
            7
        }),
        Some(7)
    );
    assert!(once.done());
    assert_eq!(
        try_init_single_thread(&mut once, || {
            calls += 1;
            8
        }),
        None
    );
    assert_eq!(calls, 1);
}

#[test]
fn first_initialisation_hands_out_the_context() {
    let mut once = Once::new();
    assert_eq!(init_single_thread(&mut once, || String::from("context")), "context");
    assert!(once.done());
    assert_eq!(try_init_single_thread(&mut once, || String::from("again")), None);
}
