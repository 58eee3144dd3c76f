use iced_macroquad::damage::diff;
use iced_macroquad::damage::group;
use iced_macroquad::damage::MAX_REGIONS;
use iced_macroquad::geometry::Rect;
use iced_macroquad::geometry::Transformation;
use iced_macroquad::layer::Layer;
use iced_macroquad::quad::Background;
use iced_macroquad::quad::Border;
use iced_macroquad::quad::Color;
use iced_macroquad::quad::Primitive;
use iced_macroquad::quad::Radii;

fn layer(bounds: Rect, quads: &[Rect]) -> Layer {
    let mut layer = Layer::with_bounds(bounds);
    for quad in quads {
        layer.draw_quad(
            Primitive {
                bounds: *quad,
                border: Border {
                    color: Color { r: 0, g: 0, b: 0, a: 0 },
                    width: 0,
                    radius: Radii { top_left: 0, top_right: 0, bottom_right: 0, bottom_left: 0 },
                },
            },
            Background::Color(Color { r: 255, g: 0, b: 0, a: 255 }),
            Transformation::identity(),
        );
    }
    layer
}

#[test]
fn equal_frames_have_no_damage() {
    let a = vec![
        layer(Rect::infinite(), &[Rect::new(0, 0, 50, 50)]),
        layer(Rect::new(5, 5, 10, 10), &[]),
    ];
    let b = vec![
        layer(Rect::infinite(), &[Rect::new(0, 0, 50, 50)]),
        layer(Rect::new(5, 5, 10, 10), &[]),
    ];
    assert_eq!(diff(&a, &b), Vec::<Rect>::new());
    assert_eq!(diff(&[], &[]), Vec::<Rect>::new());
}

#[test]
fn a_changed_layer_damages_both_clips() {
    let a = vec![
        layer(Rect::infinite(), &[]),
        layer(Rect::new(5, 5, 10, 10), &[Rect::new(6, 6, 1, 1)]),
    ];
    let b = vec![
        layer(Rect::infinite(), &[]),
        layer(Rect::new(7, 7, 10, 10), &[Rect::new(6, 6, 1, 1)]),
    ];
    assert_eq!(diff(&a, &b), vec![Rect::new(5, 5, 10, 10), Rect::new(7, 7, 10, 10)]);
}

#[test]
fn a_moved_quad_damages_the_clip_of_its_layer() {
    let a = vec![layer(Rect::new(0, 0, 100, 100), &[Rect::new(0, 0, 50, 50)])];
    let b = vec![layer(Rect::new(0, 0, 100, 100), &[Rect::new(10, 0, 50, 50)])];
    assert_eq!(diff(&a, &b), vec![Rect::new(0, 0, 100, 100), Rect::new(0, 0, 100, 100)]);
}

#[test]
fn added_and_removed_layers_damage_their_clips() {
    let short = vec![layer(Rect::infinite(), &[])];
    let long = vec![
        layer(Rect::infinite(), &[]),
        layer(Rect::new(1, 1, 2, 2), &[]),
        layer(Rect::new(3, 3, 4, 4), &[]),
    ];
    let expected = vec![Rect::new(1, 1, 2, 2), Rect::new(3, 3, 4, 4)];
    assert_eq!(diff(&short, &long), expected);
    assert_eq!(diff(&long, &short), expected);
}

#[test]
fn changed_layers_come_before_added_ones() {
    let a = vec![layer(Rect::new(0, 0, 1, 1), &[])];
    let b = vec![layer(Rect::new(0, 0, 2, 2), &[]), layer(Rect::new(9, 9, 1, 1), &[])];
    assert_eq!(
        diff(&a, &b),
        vec![Rect::new(0, 0, 1, 1), Rect::new(0, 0, 2, 2), Rect::new(9, 9, 1, 1)]
    );
}

#[test]
fn grouping_merges_overlapping_rectangles() {
    let bounds = Rect::with_size(800, 600);
    let damage = vec![Rect::new(0, 0, 50, 50), Rect::new(10, 0, 50, 50)];
    assert_eq!(group(damage, bounds), vec![Rect::new(0, 0, 60, 50)]);
}

#[test]
fn grouping_merges_adjacent_rectangles() {
    let bounds = Rect::with_size(800, 600);
    let damage = vec![Rect::new(0, 0, 50, 50), Rect::new(50, 10, 50, 50)];
    assert_eq!(group(damage, bounds), vec![Rect::new(0, 0, 100, 60)]);
}

#[test]
fn grouping_keeps_separate_rectangles_apart() {
    let bounds = Rect::with_size(800, 600);
    let damage = vec![Rect::new(0, 0, 50, 50), Rect::new(100, 100, 50, 50)];
    assert_eq!(
        group(damage, bounds),
        vec![Rect::new(0, 0, 50, 50), Rect::new(100, 100, 50, 50)]
    );
}

#[test]
fn grouping_merges_until_nothing_touches() {
    let bounds = Rect::with_size(800, 600);
    let damage = vec![
        Rect::new(0, 0, 10, 10),
        Rect::new(30, 0, 10, 10),
        Rect::new(100, 100, 5, 5),
        Rect::new(5, 5, 30, 3),
    ];
    assert_eq!(
        group(damage, bounds),
        vec![Rect::new(100, 100, 5, 5), Rect::new(0, 0, 40, 10)]
    );
}

#[test]
fn grouping_cuts_damage_to_the_bounds() {
    let bounds = Rect::with_size(800, 600);
    let damage = vec![Rect::new(-10, -10, 20, 20), Rect::new(790, 590, 100, 100)];
    assert_eq!(
        group(damage, bounds),
        vec![Rect::new(0, 0, 10, 10), Rect::new(790, 590, 10, 10)]
    );
    assert_eq!(group(vec![Rect::infinite()], bounds), vec![bounds]);
}

#[test]
fn grouping_drops_what_holds_no_pixel_of_the_bounds() {
    let bounds = Rect::with_size(800, 600);
    let damage = vec![
        Rect::new(10, 10, 0, 5),
        Rect::new(10, 10, 5, 0),
        Rect::new(800, 0, 10, 10),
        Rect::new(-10, 0, 10, 10),
    ];
    assert_eq!(group(damage, bounds), Vec::<Rect>::new());
    assert_eq!(group(Vec::new(), bounds), Vec::<Rect>::new());
    assert_eq!(group(vec![Rect::new(1, 1, 1, 1)], Rect::with_size(0, 0)), Vec::<Rect>::new());
}

#[test]
fn grouping_hands_out_at_most_the_limit() {
    let bounds = Rect::with_size(800, 600);
    let mut damage = Vec::new();
    for i in 0..MAX_REGIONS {
        damage.push(Rect::new(10 * i as i32, 0, 5, 5));
    }
    let regions = group(damage.clone(), bounds);
    assert_eq!(regions, damage);
    damage.push(Rect::new(500, 500, 5, 5));
    assert_eq!(group(damage, bounds), vec![Rect::new(0, 0, 505, 505)]);
}

#[test]
fn grouped_regions_cover_the_damage_and_do_not_overlap() {
    let bounds = Rect::with_size(64, 64);
    let damage = vec![
        Rect::new(3, 3, 4, 4),
        Rect::new(20, 20, 10, 2),
        Rect::new(6, 6, 10, 10),
        Rect::new(40, 0, 30, 5),
        Rect::new(25, 21, 3, 30),
    ];
    let regions = group(damage.clone(), bounds);
    for y in 0..64i32 {
        for x in 0..64i32 {
            let inside = |r: &Rect| {
                r.x as i64 <= x as i64
                    && (x as i64) < r.x as i64 + r.width as i64
                    && r.y as i64 <= y as i64
                    && (y as i64) < r.y as i64 + r.height as i64
            };
            let damaged = damage.iter().any(inside);
            let hits = regions.iter().filter(|r| inside(r)).count();
            assert!(hits <= 1);
            if damaged {
                assert_eq!(hits, 1);
            }
        }
    }
    for region in &regions {
        assert_eq!(region.intersection(&bounds), Some(*region));
    }
}
