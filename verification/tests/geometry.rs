use iced_macroquad::geometry::Rect;
use iced_macroquad::geometry::Transformation;

#[test]
fn intersection_of_overlapping_rectangles() {
    let a = Rect::new(0, 0, 10, 10);
    let b = Rect::new(5, 3, 10, 4);
    assert_eq!(a.intersection(&b), Some(Rect::new(5, 3, 5, 4)));
    assert_eq!(b.intersection(&a), Some(Rect::new(5, 3, 5, 4)));
}

#[test]
fn intersection_of_adjacent_rectangles_is_none() {
    let a = Rect::new(0, 0, 10, 10);
    let b = Rect::new(10, 0, 10, 10);
    assert_eq!(a.intersection(&b), None);
    assert!(a.is_touching(&b));
}

#[test]
fn intersection_with_an_empty_rectangle_is_none() {
    let a = Rect::new(0, 0, 10, 10);
    let b = Rect::new(2, 2, 0, 5);
    assert_eq!(a.intersection(&b), None);
    assert!(b.has_no_area());
    assert!(!a.is_touching(&b));
}

#[test]
fn intersection_at_the_limits_of_the_grid() {
    let a = Rect::new(i32::MIN, i32::MIN, u32::MAX, u32::MAX);
    let b = Rect::new(i32::MAX - 1, i32::MAX - 1, u32::MAX, u32::MAX);
    assert_eq!(a.intersection(&b), Some(Rect::new(i32::MAX - 1, i32::MAX - 1, 1, 1)));
    let c = Rect::new(-1, -1, 2, 2);
    assert_eq!(a.intersection(&c), Some(Rect::new(-1, -1, 2, 2)));
    let d = Rect::new(i32::MAX, i32::MAX, u32::MAX, u32::MAX);
    assert_eq!(a.intersection(&d), None);
}

#[test]
fn union_is_the_rectangle_around_both() {
    let a = Rect::new(-5, 0, 10, 10);
    let b = Rect::new(20, 30, 1, 1);
    assert_eq!(a.union(&b), Rect::new(-5, 0, 26, 31));
}

#[test]
fn the_infinite_rectangle_starts_at_the_origin() {
    assert_eq!(Rect::infinite(), Rect::new(0, 0, u32::MAX, u32::MAX));
    assert_eq!(
        Rect::infinite().intersection(&Rect::with_size(800, 600)),
        Some(Rect::new(0, 0, 800, 600))
    );
}

#[test]
fn transformation_scales_then_translates() {
    let t = Transformation { scale: 2, dx: 5, dy: 5 };
    assert!(t.can_apply(&Rect::new(10, 10, 20, 20)));
    assert_eq!(t.apply(&Rect::new(10, 10, 20, 20)), Rect::new(25, 25, 40, 40));
}

#[test]
fn composition_applies_the_inner_transformation_first() {
    let outer = Transformation::translate(5, 5);
    let inner = Transformation::scale(2);
    assert!(outer.can_compose(&inner));
    let both = outer.compose(&inner);
    assert_eq!(both, Transformation { scale: 2, dx: 5, dy: 5 });
    let other = inner.compose(&outer);
    assert_eq!(other, Transformation { scale: 2, dx: 10, dy: 10 });
    let r = Rect::new(10, 10, 20, 20);
    assert_eq!(both.apply(&r), outer.apply(&inner.apply(&r)));
}

#[test]
fn transformation_that_does_not_fit_is_reported() {
    let t = Transformation::scale(u32::MAX);
    assert!(!t.can_apply(&Rect::new(0, 0, 2, 2)));
    assert!(t.can_apply(&Rect::new(0, 0, 1, 1)));
    let far = Transformation::translate(i32::MAX, 0);
    assert!(!far.can_apply(&Rect::new(1, 0, 1, 1)));
    assert!(!far.can_compose(&Transformation::translate(1, 0)));
    assert!(!t.can_compose(&Transformation::scale(2)));
}

#[test]
fn identity_changes_nothing() {
    let r = Rect::new(-3, 7, 11, 13);
    assert_eq!(Transformation::identity().apply(&r), r);
}
