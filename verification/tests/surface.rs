use iced_macroquad::geometry::Size;
use iced_macroquad::surface::Surface;

#[test]
fn new_surface_is_zero_and_dirty() {
    let mut surface = Surface::new(Size { width: 4, height: 3 });
    assert_eq!(surface.size(), Size { width: 4, height: 3 });
    assert_eq!(surface.data().len(), 48);
    assert!(surface.data().iter().all(|byte| *byte == 0));
    assert!(surface.update_texture());
    assert!(!surface.update_texture());
}

#[test]
fn empty_surface_has_no_bytes() {
    let surface = Surface::new(Size { width: 0, height: 10 });
    assert_eq!(surface.data().len(), 0);
}

#[test]
fn written_bytes_are_read_back() {
    let mut surface = Surface::new(Size { width: 2, height: 2 });
    assert!(surface.update_texture());
    {
        let bytes = surface.data_mut();
        assert_eq!(bytes.len(), 16);
        for (i, byte) in bytes.iter_mut().enumerate() {
            *byte = i as u8 + 1;
        }
    }
    assert!(surface.update_texture());
    let expected: Vec<u8> = (1..=16).collect();
    assert_eq!(surface.data(), &expected[..]);
}

#[test]
fn resize_keeps_the_words_that_fit_and_marks_the_surface() {
    let mut surface = Surface::new(Size { width: 2, height: 1 });
    assert!(surface.update_texture());
    surface.data_mut().copy_from_slice(&[1, 2, 3, 4, 5, 6, 7, 8]);
    surface.resize(Size { width: 2, height: 2 });
    assert_eq!(surface.size(), Size { width: 2, height: 2 });
    assert_eq!(surface.data(), &[1, 2, 3, 4, 5, 6, 7, 8, 0, 0, 0, 0, 0, 0, 0, 0][..]);
    assert!(surface.update_texture());
    surface.resize(Size { width: 1, height: 1 });
    assert_eq!(surface.data(), &[1, 2, 3, 4][..]);
    assert!(surface.update_texture());
}
