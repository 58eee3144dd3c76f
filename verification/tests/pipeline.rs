use iced_macroquad::canvas::Canvas;
use iced_macroquad::engine::Engine;
use iced_macroquad::geometry::Point;
use iced_macroquad::geometry::Rect;
use iced_macroquad::geometry::Size;
use iced_macroquad::layer::Layer;
use iced_macroquad::layout::attributes;
use iced_macroquad::layout::indices;
use iced_macroquad::layout::Attribute;
use iced_macroquad::layout::VertexFormat;
use iced_macroquad::layout::INSTANCE_FLOATS;
use iced_macroquad::pipeline::scissor;
use iced_macroquad::pipeline::Backend;
use iced_macroquad::pipeline::Pipeline;
use iced_macroquad::pipeline::PipelineError;
use iced_macroquad::pipeline::Scissor;
use iced_macroquad::pipeline::INDEX_COUNT;
use iced_macroquad::pipeline::MAX_QUADS;
use iced_macroquad::quad::Background;
use iced_macroquad::quad::Border;
use iced_macroquad::quad::Color;
use iced_macroquad::quad::Primitive;
use iced_macroquad::quad::Quad;
use iced_macroquad::quad::Radii;
use iced_macroquad::viewport::Scale;
use iced_macroquad::viewport::Viewport;

fn quads(count: usize) -> Vec<Quad> {
    let quad = Quad {
        color: Color { r: 0, g: 0, b: 0, a: 255 },
        position: Point { x: 0, y: 0 },
        size: Size { width: 1, height: 1 },
        border_color: Color { r: 0, g: 0, b: 0, a: 0 },
        border_radius: Radii { top_left: 0, top_right: 0, bottom_right: 0, bottom_left: 0 },
        border_width: 0,
    };
    vec![quad; count]
}

fn pipeline() -> Pipeline {
    match Pipeline::new(Backend::OpenGl) {
        Ok(pipeline) => pipeline,
        Err(_) => panic!("the backend is supported"),
    }
}

#[test]
fn instance_buffer_never_shrinks() {
    let viewport = Viewport::with_physical_size(Size { width: 800, height: 600 }, 1);
    let mut pipeline = pipeline();
    assert_eq!(pipeline.capacity(), MAX_QUADS);
    let mut largest = pipeline.capacity();
    for count in [10usize, 5, 1000, 3] {
        let call = pipeline.render(&quads(count), Rect::infinite(), &viewport);
        assert_eq!(call.instances, count);
        assert_eq!(call.grow_to, None);
        assert!(pipeline.capacity() >= largest);
        assert!(pipeline.capacity() >= count);
        largest = pipeline.capacity();
    }
    assert_eq!(pipeline.capacity(), 1000);
}

#[test]
fn instance_buffer_grows_when_it_is_too_small() {
    let viewport = Viewport::with_physical_size(Size { width: 800, height: 600 }, 1);
    let mut pipeline = pipeline();
    let call = pipeline.render(&quads(1001), Rect::infinite(), &viewport);
    assert_eq!(call.grow_to, Some(1001));
    assert_eq!(pipeline.capacity(), 1001);
    let call = pipeline.render(&quads(1001), Rect::infinite(), &viewport);
    assert_eq!(call.grow_to, None);
    let call = pipeline.render(&quads(0), Rect::infinite(), &viewport);
    assert_eq!(call.grow_to, None);
    assert_eq!(call.instances, 0);
    assert_eq!(pipeline.capacity(), 1001);
    let call = pipeline.render(&quads(2500), Rect::infinite(), &viewport);
    assert_eq!(call.grow_to, Some(2500));
    assert_eq!(pipeline.capacity(), 2500);
}

#[test]
fn pipeline_for_metal_is_refused() {
    assert!(matches!(Pipeline::new(Backend::Metal), Err(PipelineError::UnsupportedBackend)));
}

#[test]
fn scissor_is_measured_from_the_bottom() {
    let viewport = Viewport::with_physical_size(Size { width: 800, height: 600 }, 1);
    assert_eq!(
        scissor(&Rect::new(10, 20, 100, 50), &viewport),
        Scissor { x: 10, y: 530, width: 100, height: 50 }
    );
    assert_eq!(
        scissor(&Rect::infinite(), &viewport),
        Scissor { x: 0, y: 0, width: 800, height: 600 }
    );
}

#[test]
fn scissor_is_scaled_to_device_pixels() {
    let viewport = Viewport::with_physical_size(Size { width: 800, height: 600 }, 2);
    assert_eq!(viewport.logical_size(), Size { width: 400, height: 300 });
    assert_eq!(
        scissor(&Rect::new(10, 20, 100, 50), &viewport),
        Scissor { x: 20, y: 460, width: 200, height: 100 }
    );
}

#[test]
fn scissor_is_held_inside_the_target() {
    let viewport = Viewport::with_physical_size(Size { width: 800, height: 600 }, 1);
    assert_eq!(
        scissor(&Rect::new(-10, 550, 100, 100), &viewport),
        Scissor { x: 0, y: 0, width: 90, height: 50 }
    );
    assert_eq!(
        scissor(&Rect::new(900, 700, 10, 10), &viewport),
        Scissor { x: 800, y: 0, width: 0, height: 0 }
    );
    assert_eq!(
        scissor(&Rect::new(-50, -50, 10, 10), &viewport),
        Scissor { x: 0, y: 600, width: 0, height: 0 }
    );
    assert_eq!(
        scissor(&Rect::new(i32::MIN, i32::MAX, u32::MAX, u32::MAX), &Viewport::with_physical_size(
            Size { width: u32::MAX, height: u32::MAX },
            u32::MAX
        )),
        Scissor { x: 0, y: 0, width: u32::MAX, height: 0 }
    );
}

#[test]
fn viewport_reports_its_sizes() {
    let viewport = Viewport::with_physical_size(Size { width: 1001, height: 7 }, 4);
    assert_eq!(viewport.physical_size(), Size { width: 1001, height: 7 });
    assert_eq!(viewport.physical_width(), 1001);
    assert_eq!(viewport.physical_height(), 7);
    assert_eq!(viewport.scale_factor(), Scale { numerator: 4, denominator: 1 });
    assert_eq!(viewport.logical_size(), Size { width: 251, height: 2 });
    assert_eq!(viewport.logical_bounds(), Rect::new(0, 0, 251, 2));
    let empty = Viewport::with_physical_size(Size { width: 0, height: 0 }, 3);
    assert_eq!(empty.logical_size(), Size { width: 0, height: 0 });
    let large = Viewport::with_physical_size(Size { width: u32::MAX, height: u32::MAX }, u32::MAX);
    assert_eq!(large.logical_size(), Size { width: 1, height: 1 });
}

#[test]
fn engine_draws_every_layer_with_quads() {
    let viewport = Viewport::with_physical_size(Size { width: 800, height: 600 }, 1);
    let mut engine = match Engine::new(Backend::OpenGl) {
        Ok(engine) => engine,
        Err(_) => panic!("the backend is supported"),
    };
    let border = Border {
        color: Color { r: 0, g: 0, b: 0, a: 0 },
        width: 0,
        radius: Radii { top_left: 0, top_right: 0, bottom_right: 0, bottom_left: 0 },
    };
    let red = Background::Color(Color { r: 255, g: 0, b: 0, a: 255 });
    let mut canvas = Canvas::new();
    canvas.start_layer(Rect::new(0, 0, 10, 10));
    canvas.end_layer();
    canvas.start_layer(Rect::new(5, 5, 20, 20));
    for _ in 0..1200 {
        canvas.fill_quad(Primitive { bounds: Rect::new(6, 6, 1, 1), border }, red);
    }
    canvas.end_layer();
    canvas.fill_quad(Primitive { bounds: Rect::new(6, 6, 1, 1), border }, red);
    let draws = engine.present(&canvas, &viewport).draws;
    assert_eq!(draws.len(), 2);
    assert_eq!(draws[0].layer, 0);
    assert_eq!(draws[0].call.instances, 1);
    assert_eq!(draws[0].call.grow_to, None);
    assert_eq!(draws[0].call.scissor, Scissor { x: 0, y: 0, width: 800, height: 600 });
    assert_eq!(draws[1].layer, 2);
    assert_eq!(draws[1].call.instances, 1200);
    assert_eq!(draws[1].call.grow_to, Some(1200));
    assert_eq!(draws[1].call.scissor, Scissor { x: 5, y: 575, width: 20, height: 20 });
    assert_eq!(engine.capacity(), 1200);
}

#[test]
fn engine_skips_layers_outside_the_damage() {
    let viewport = Viewport::with_physical_size(Size { width: 800, height: 600 }, 1);
    let mut engine = match Engine::new(Backend::OpenGl) {
        Ok(engine) => engine,
        Err(_) => panic!("the backend is supported"),
    };
    let mut near = Layer::with_bounds(Rect::new(0, 0, 10, 10));
    near.quads = quads(2);
    let mut far = Layer::with_bounds(Rect::new(100, 100, 10, 10));
    far.quads = quads(3);
    let empty = Layer::with_bounds(Rect::new(0, 0, 10, 10));
    let frame = vec![near, far, empty];
    let draws = engine.render_damaged(&frame, &[Rect::new(5, 5, 10, 10)], &viewport);
    assert_eq!(draws.len(), 1);
    assert_eq!(draws[0].layer, 0);
    assert_eq!(draws[0].call.instances, 2);
    assert_eq!(draws[0].call.scissor, Scissor { x: 5, y: 590, width: 5, height: 5 });
    let draws = engine.render_damaged(
        &frame,
        &[Rect::new(105, 105, 1, 1), Rect::new(0, 0, 200, 200)],
        &viewport,
    );
    assert_eq!(draws.len(), 3);
    assert_eq!(draws[0].layer, 1);
    assert_eq!(draws[1].layer, 0);
    assert_eq!(draws[2].layer, 1);
    assert!(engine.render_damaged(&frame, &[], &viewport).is_empty());
}

#[test]
fn attributes_fill_one_instance() {
    let list = attributes();
    assert_eq!(list.len(), 7);
    assert_eq!(list[0].attribute, Attribute::CornerPosition);
    assert_eq!(list[0].buffer_index, 0);
    assert_eq!(list[0].format, VertexFormat::Float2);
    let names: Vec<&str> = list.iter().map(|a| a.attribute.name()).collect();
    assert_eq!(
        names,
        vec![
            "i_inst_pos",
            "i_color",
            "i_pos",
            "i_size",
            "i_border_color",
            "i_border_radius",
            "i_border_width"
        ]
    );
    let floats: usize = list.iter().filter(|a| a.buffer_index == 1).map(|a| a.format.floats()).sum();
    assert_eq!(floats, INSTANCE_FLOATS);
    assert_eq!(floats, 17);
    assert_eq!(indices(), [0, 1, 2, 2, 3, 0]);
    assert_eq!(INDEX_COUNT as usize, indices().len());
}

#[test]
fn fractional_scale_is_exact() {
    let size = Size { width: 800, height: 600 };
    let scale = Scale { numerator: 3, denominator: 2 };
    assert!(Viewport::is_representable(size, scale));
    let viewport = Viewport::with_scale(size, scale);
    assert_eq!(viewport.scale_factor(), scale);
    assert_eq!(viewport.logical_size(), Size { width: 534, height: 400 });
    assert_eq!(
        scissor(&Rect::new(10, 20, 100, 50), &viewport),
        Scissor { x: 15, y: 495, width: 150, height: 75 }
    );
    assert_eq!(
        scissor(&Rect::new(1, 1, 1, 1), &viewport),
        Scissor { x: 2, y: 597, width: 1, height: 1 }
    );
    assert_eq!(
        scissor(&Rect::new(-3, -3, 4, 4), &viewport),
        Scissor { x: 0, y: 598, width: 2, height: 2 }
    );
    assert_eq!(scissor(&viewport.logical_bounds(), &viewport), Scissor { x: 0, y: 0, width: 800, height: 600 });
}

#[test]
fn scale_below_one_has_more_logical_than_device_pixels() {
    let size = Size { width: 3, height: 5 };
    let scale = Scale { numerator: 1, denominator: 2 };
    assert!(Viewport::is_representable(size, scale));
    let viewport = Viewport::with_scale(size, scale);
    assert_eq!(viewport.logical_size(), Size { width: 6, height: 10 });
    assert_eq!(
        scissor(&Rect::new(2, 2, 2, 2), &viewport),
        Scissor { x: 1, y: 3, width: 1, height: 1 }
    );
}

#[test]
fn viewport_that_cannot_be_represented_is_reported() {
    let size = Size { width: u32::MAX, height: 1 };
    assert!(!Viewport::is_representable(size, Scale { numerator: 1, denominator: 2 }));
    assert!(!Viewport::is_representable(size, Scale { numerator: 0, denominator: 1 }));
    assert!(!Viewport::is_representable(size, Scale { numerator: 1, denominator: 0 }));
    assert!(Viewport::is_representable(size, Scale { numerator: 2, denominator: 2 }));
    assert!(Viewport::is_representable(size, Scale { numerator: u32::MAX, denominator: u32::MAX }));
}
