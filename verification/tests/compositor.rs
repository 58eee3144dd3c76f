use iced_macroquad::canvas::Canvas;
use iced_macroquad::compositor::Compositor;
use iced_macroquad::engine::Engine;
use iced_macroquad::history::History;
use iced_macroquad::geometry::Rect;
use iced_macroquad::geometry::Size;
use iced_macroquad::pipeline::Backend;
use iced_macroquad::pipeline::PipelineError;
use iced_macroquad::pipeline::Scissor;
use iced_macroquad::quad::Background;
use iced_macroquad::quad::Border;
use iced_macroquad::quad::Color;
use iced_macroquad::quad::Primitive;
use iced_macroquad::quad::Radii;
use iced_macroquad::viewport::Scale;
use iced_macroquad::viewport::Viewport;

fn quad(x: i32, y: i32, width: u32, height: u32) -> Primitive {
    Primitive {
        bounds: Rect::new(x, y, width, height),
        border: Border {
            color: Color { r: 0, g: 0, b: 0, a: 0 },
            width: 0,
            radius: Radii { top_left: 0, top_right: 0, bottom_right: 0, bottom_left: 0 },
        },
    }
}

fn red() -> Background {
    Background::Color(Color { r: 255, g: 0, b: 0, a: 255 })
}

fn engine() -> Engine {
    match Engine::new(Backend::OpenGl) {
        Ok(engine) => engine,
        Err(_) => panic!("the backend is supported"),
    }
}

#[test]
fn first_present_damages_the_whole_viewport() {
    let size = Size { width: 800, height: 600 };
    let viewport = Viewport::with_physical_size(size, 1);
    let mut engine = engine();
    let canvas = Canvas::new();
    let out = engine.present(&canvas, &viewport);
    assert_eq!(out.damage, vec![Rect::new(0, 0, 800, 600)]);
    assert!(out.draws.is_empty());
}

#[test]
fn first_present_damages_the_logical_viewport() {
    let size = Size { width: 801, height: 600 };
    let viewport = Viewport::with_physical_size(size, 2);
    let mut engine = engine();
    let canvas = Canvas::new();
    let out = engine.present(&canvas, &viewport);
    assert_eq!(out.damage, vec![Rect::new(0, 0, 401, 300)]);
}

#[test]
fn identical_frame_has_no_damage() {
    let size = Size { width: 800, height: 600 };
    let viewport = Viewport::with_physical_size(size, 1);
    let mut engine = engine();
    let mut canvas = Canvas::new();
    canvas.start_layer(Rect::new(10, 10, 100, 100));
    canvas.fill_quad(quad(20, 20, 5, 5), red());
    canvas.end_layer();
    let first = engine.present(&canvas, &viewport);
    assert_eq!(first.damage, vec![Rect::new(0, 0, 800, 600)]);
    assert_eq!(first.draws.len(), 1);
    let second = engine.present(&canvas, &viewport);
    assert!(second.damage.is_empty());
    assert!(second.draws.is_empty());
    canvas.clear();
    canvas.start_layer(Rect::new(10, 10, 100, 100));
    canvas.fill_quad(quad(20, 20, 5, 5), red());
    canvas.end_layer();
    let third = engine.present(&canvas, &viewport);
    assert!(third.damage.is_empty());
    assert!(third.draws.is_empty());
}

#[test]
fn resize_forces_full_damage() {
    let size = Size { width: 800, height: 600 };
    let mut compositor = Compositor::new(size);
    let mut engine = engine();
    let mut canvas = Canvas::new();
    canvas.fill_quad(quad(0, 0, 50, 50), red());
    let first = engine.present(&canvas, &Viewport::with_physical_size(size, 1));
    assert_eq!(first.damage, vec![Rect::new(0, 0, 800, 600)]);
    let larger = Size { width: 1024, height: 768 };
    let second = engine.present(&canvas, &Viewport::with_physical_size(larger, 1));
    assert_eq!(second.damage, vec![Rect::new(0, 0, 1024, 768)]);
    assert_eq!(second.draws.len(), 1);
    assert_eq!(compositor.present(&canvas, &Viewport::with_physical_size(size, 1)), vec![Rect::new(0, 0, 800, 600)]);
    assert_eq!(
        compositor.present(&canvas, &Viewport::with_physical_size(larger, 1)),
        vec![Rect::new(0, 0, 1024, 768)]
    );
    assert_eq!(compositor.surface().size(), larger);
    assert_eq!(compositor.surface().data().len(), 1024 * 768 * 4);
    assert!(compositor.present(&canvas, &Viewport::with_physical_size(larger, 1)).is_empty());
    let third = engine.present(&canvas, &Viewport::with_physical_size(larger, 1));
    assert!(third.damage.is_empty());
}

#[test]
fn moved_quad_scenario() {
    let size = Size { width: 800, height: 600 };
    let viewport = Viewport::with_physical_size(size, 1);
    let mut engine = engine();
    let mut canvas = Canvas::new();
    let whole = Scissor { x: 0, y: 0, width: 800, height: 600 };

    canvas.fill_quad(quad(0, 0, 50, 50), red());
    let first = engine.present(&canvas, &viewport);
    assert_eq!(first.damage, vec![Rect::new(0, 0, 800, 600)]);
    assert_eq!(first.draws.len(), 1);
    assert_eq!(first.draws[0].layer, 0);
    assert_eq!(first.draws[0].call.instances, 1);
    assert_eq!(first.draws[0].call.scissor, whole);
    assert_eq!(first.draws[0].call.grow_to, None);

    canvas.clear();
    canvas.fill_quad(quad(0, 0, 50, 50), red());
    let second = engine.present(&canvas, &viewport);
    assert!(second.damage.is_empty());
    assert!(second.draws.is_empty());

    canvas.clear();
    canvas.fill_quad(quad(10, 0, 50, 50), red());
    let third = engine.present(&canvas, &viewport);
    assert!(!third.damage.is_empty());
    let union = Rect::new(0, 0, 60, 50);
    assert!(third
        .damage
        .iter()
        .any(|region| region.intersection(&union) == Some(union)));
    assert_eq!(third.damage, vec![Rect::new(0, 0, 800, 600)]);
    assert_eq!(third.draws.len(), 1);
    assert_eq!(third.draws[0].call.instances, 1);
    assert_eq!(third.draws[0].call.scissor, whole);
}

#[test]
fn changed_layer_is_redrawn_inside_its_clip() {
    let size = Size { width: 800, height: 600 };
    let viewport = Viewport::with_physical_size(size, 1);
    let mut engine = engine();
    let mut canvas = Canvas::new();
    canvas.fill_quad(quad(0, 0, 800, 600), red());
    canvas.start_layer(Rect::new(100, 100, 200, 50));
    canvas.fill_quad(quad(110, 110, 10, 10), red());
    canvas.end_layer();
    let _ = engine.present(&canvas, &viewport);

    canvas.clear();
    canvas.fill_quad(quad(0, 0, 800, 600), red());
    canvas.start_layer(Rect::new(100, 100, 200, 50));
    canvas.fill_quad(quad(120, 110, 10, 10), red());
    canvas.fill_quad(quad(130, 110, 10, 10), red());
    canvas.end_layer();
    let out = engine.present(&canvas, &viewport);
    assert_eq!(out.damage, vec![Rect::new(100, 100, 200, 50)]);
    assert_eq!(out.draws.len(), 2);
    let clip = Scissor { x: 100, y: 450, width: 200, height: 50 };
    assert_eq!(out.draws[0].layer, 0);
    assert_eq!(out.draws[0].call.instances, 1);
    assert_eq!(out.draws[0].call.scissor, clip);
    assert_eq!(out.draws[1].layer, 1);
    assert_eq!(out.draws[1].call.instances, 2);
    assert_eq!(out.draws[1].call.scissor, clip);
}

#[test]
fn render_to_surface_retains_the_frame() {
    let size = Size { width: 100, height: 100 };
    let viewport = Viewport::with_physical_size(size, 1);
    let mut compositor = Compositor::new(size);
    let mut canvas = Canvas::new();
    canvas.fill_quad(quad(0, 0, 5, 5), red());
    assert_eq!(compositor.render_to_surface(&canvas, &viewport), vec![Rect::new(0, 0, 100, 100)]);
    assert_eq!(compositor.render_to_surface(&canvas, &viewport), Vec::<Rect>::new());
    compositor.maybe_resize_buffers(size);
    assert_eq!(compositor.render_to_surface(&canvas, &viewport), Vec::<Rect>::new());
    compositor.resize(size);
    assert_eq!(compositor.render_to_surface(&canvas, &viewport), vec![Rect::new(0, 0, 100, 100)]);
}

#[test]
fn new_compositor_has_a_clear_mask_and_surface_of_its_size() {
    let mut compositor = Compositor::new(Size { width: 7, height: 3 });
    assert!(compositor.draw_texture());
    assert!(!compositor.draw_texture());
    {
        let (pixels, mask) = compositor.buffers_mut();
        assert_eq!(pixels.len(), 7 * 3 * 4);
        assert!(pixels.iter().all(|byte| *byte == 0));
        assert_eq!(mask.width(), 7);
        assert_eq!(mask.height(), 3);
        assert!(mask.data().iter().all(|byte| *byte == 0));
        pixels[0] = 9;
    }
    assert!(compositor.draw_texture());
    assert_eq!(compositor.surface().data()[0], 9);
    compositor.maybe_resize_buffers(Size { width: 2, height: 5 });
    let (pixels, mask) = compositor.buffers_mut();
    assert_eq!(pixels.len(), 2 * 5 * 4);
    assert_eq!(mask.width(), 2);
    assert_eq!(mask.height(), 5);
}

#[test]
fn metal_is_not_supported() {
    assert!(matches!(Engine::new(Backend::Metal), Err(PipelineError::UnsupportedBackend)));
    assert!(Engine::new(Backend::OpenGl).is_ok());
}

fn holds(r: &Rect, x: i32, y: i32) -> bool {
    let (x, y) = (x as i64, y as i64);
    r.x as i64 <= x && x < r.x as i64 + r.width as i64 && r.y as i64 <= y && y < r.y as i64 + r.height as i64
}

fn painted(canvas: &Canvas, x: i32, y: i32) -> Vec<Rect> {
    let mut list = Vec::new();
    for layer in canvas.layers() {
        if holds(&layer.bounds, x, y) {
            for quad in &layer.quads {
                if holds(&quad.rect(), x, y) {
                    list.push(quad.rect());
                }
            }
        }
    }
    list
}

#[test]
fn damage_covers_every_pixel_that_differs() {
    let size = Size { width: 64, height: 48 };
    let viewport = Viewport::with_physical_size(size, 1);
    let mut engine = engine();

    let mut before = Canvas::new();
    before.fill_quad(quad(0, 0, 64, 48), red());
    before.start_layer(Rect::new(4, 4, 20, 20));
    before.fill_quad(quad(6, 6, 30, 5), red());
    before.end_layer();
    before.start_layer(Rect::new(40, 30, 10, 10));
    before.fill_quad(quad(41, 31, 2, 2), red());
    before.end_layer();
    before.start_layer(Rect::new(30, 0, 5, 5));
    before.fill_quad(quad(30, 0, 5, 5), red());
    before.end_layer();
    let _ = engine.present(&before, &viewport);

    let mut after = Canvas::new();
    after.fill_quad(quad(0, 0, 64, 48), red());
    after.start_layer(Rect::new(4, 4, 20, 20));
    after.fill_quad(quad(6, 8, 30, 5), red());
    after.end_layer();
    after.start_layer(Rect::new(40, 30, 10, 10));
    after.fill_quad(quad(41, 31, 2, 2), red());
    after.end_layer();
    let out = engine.present(&after, &viewport);

    assert_eq!(out.damage, vec![Rect::new(4, 4, 20, 20), Rect::new(30, 0, 5, 5)]);
    let bounds = Rect::with_size(64, 48);
    for region in &out.damage {
        assert_eq!(region.intersection(&bounds), Some(*region));
    }
    let mut differing = 0;
    for y in 0..48 {
        for x in 0..64 {
            let hits = out.damage.iter().filter(|r| holds(r, x, y)).count();
            assert!(hits <= 1);
            if painted(&before, x, y) != painted(&after, x, y) {
                differing += 1;
                assert_eq!(hits, 1);
            }
            let mut redrawn = Vec::new();
            for draw in &out.draws {
                let s = draw.call.scissor;
                let row = 48 - 1 - y as i64;
                let inside = s.x as i64 <= x as i64
                    && (x as i64) < s.x as i64 + s.width as i64
                    && s.y as i64 <= row
                    && row < s.y as i64 + s.height as i64;
                if inside {
                    for quad in &after.layer(draw.layer).quads {
                        if holds(&quad.rect(), x, y) {
                            redrawn.push(quad.rect());
                        }
                    }
                }
            }
            if hits == 1 {
                assert_eq!(redrawn, painted(&after, x, y));
            } else {
                assert!(redrawn.is_empty());
            }
        }
    }
    assert!(differing > 0);
}

#[test]
fn scaled_viewport_redraws_in_device_pixels() {
    let size = Size { width: 200, height: 100 };
    let viewport = Viewport::with_physical_size(size, 2);
    let mut engine = engine();
    let mut canvas = Canvas::new();
    canvas.start_layer(Rect::new(10, 10, 20, 20));
    canvas.fill_quad(quad(12, 12, 4, 4), red());
    canvas.end_layer();
    let first = engine.present(&canvas, &viewport);
    assert_eq!(first.damage, vec![Rect::new(0, 0, 100, 50)]);
    assert_eq!(first.draws.len(), 1);
    assert_eq!(first.draws[0].layer, 1);
    assert_eq!(first.draws[0].call.scissor, Scissor { x: 20, y: 40, width: 40, height: 40 });
}

#[test]
fn engine_draws_nothing_for_an_unchanged_frame() {
    let viewport = Viewport::with_physical_size(Size { width: 800, height: 600 }, 1);
    let mut engine = engine();
    let mut canvas = Canvas::new();
    canvas.fill_quad(quad(0, 0, 50, 50), red());
    let first = engine.present(&canvas, &viewport);
    assert_eq!(first.draws.len(), 1);
    canvas.clear();
    canvas.fill_quad(quad(0, 0, 50, 50), red());
    let second = engine.present(&canvas, &viewport);
    assert!(second.damage.is_empty());
    assert!(second.draws.is_empty());
    let third = engine.present(&canvas, &viewport);
    assert!(third.draws.is_empty());
}

#[test]
fn compositor_presents_without_an_engine() {
    let size = Size { width: 800, height: 600 };
    let viewport = Viewport::with_physical_size(size, 1);
    let mut compositor = Compositor::new(size);
    let mut canvas = Canvas::new();
    canvas.fill_quad(quad(0, 0, 50, 50), red());
    assert_eq!(compositor.present(&canvas, &viewport), vec![Rect::new(0, 0, 800, 600)]);
    assert!(compositor.present(&canvas, &viewport).is_empty());
    compositor.invalidate();
    assert_eq!(compositor.present(&canvas, &viewport), vec![Rect::new(0, 0, 800, 600)]);
    assert_eq!(compositor.surface().size(), size);
    assert_eq!(compositor.surface().data().len(), 800 * 600 * 4);
}

#[test]
fn history_tracks_size_and_frame() {
    let viewport = Viewport::with_physical_size(Size { width: 10, height: 10 }, 1);
    let mut history = History::new(Size { width: 10, height: 10 });
    assert!(!history.has_frame());
    let canvas = Canvas::new();
    let frame = canvas.layers();
    assert_eq!(history.track(&frame, &viewport), vec![Rect::new(0, 0, 10, 10)]);
    assert!(history.has_frame());
    assert!(history.track(&frame, &viewport).is_empty());
    history.fit(Size { width: 10, height: 10 });
    assert!(history.has_frame());
    history.fit(Size { width: 11, height: 10 });
    assert!(!history.has_frame());
    assert_eq!(history.size(), Size { width: 11, height: 10 });
    assert_eq!(history.present(&frame, &viewport), vec![Rect::new(0, 0, 10, 10)]);
    assert_eq!(history.size(), Size { width: 10, height: 10 });
    history.reset(Size { width: 10, height: 10 });
    assert!(!history.has_frame());
    let empty = Viewport::with_physical_size(Size { width: 0, height: 0 }, 1);
    assert!(History::new(Size { width: 0, height: 0 }).present(&frame, &empty).is_empty());
}

#[test]
fn fractional_scale_redraws_the_device_pixels_of_the_clip() {
    let size = Size { width: 300, height: 150 };
    let viewport = Viewport::with_scale(size, Scale { numerator: 3, denominator: 2 });
    let mut engine = engine();
    let mut canvas = Canvas::new();
    canvas.start_layer(Rect::new(10, 10, 20, 20));
    canvas.fill_quad(quad(12, 12, 4, 4), red());
    canvas.end_layer();
    let first = engine.present(&canvas, &viewport);
    assert_eq!(first.damage, vec![Rect::new(0, 0, 200, 100)]);
    assert_eq!(first.draws.len(), 1);
    assert_eq!(first.draws[0].call.scissor, Scissor { x: 15, y: 105, width: 30, height: 30 });
    assert!(engine.present(&canvas, &viewport).draws.is_empty());
}
