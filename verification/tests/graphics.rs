use cosmic_raster::graphics::pipeline::{printer_type_from_arg, real_size, resize_target, PrinterType};
use cosmic_raster::graphics::rasterizer::Rasterizer;
use cosmic_raster::graphics::triangle::{is_inside_by_edge_signs, Color};

fn black() -> Color {
    Color::new(0, 0, 0)
}

#[test]
fn color_new_keeps_channels() {
    let c = Color::new(165, 155, 154);
    assert_eq!((c.r, c.g, c.b), (165, 155, 154));
    let d = Color::new(0, 255, 7);
    assert_eq!(d, Color { r: 0, g: 255, b: 7 });
}

#[test]
fn inside_when_all_edge_signs_agree() {
    assert!(is_inside_by_edge_signs(true, true, true));
    assert!(is_inside_by_edge_signs(false, false, false));
}

#[test]
fn outside_when_edge_signs_differ() {
    assert!(!is_inside_by_edge_signs(true, true, false));
    assert!(!is_inside_by_edge_signs(true, false, true));
    assert!(!is_inside_by_edge_signs(false, true, true));
    assert!(!is_inside_by_edge_signs(false, false, true));
    assert!(!is_inside_by_edge_signs(false, true, false));
    assert!(!is_inside_by_edge_signs(true, false, false));
}

#[test]
fn edge_sign_decision_ignores_rotation_and_winding() {
    let all = [false, true];
    for &a in &all {
        for &b in &all {
            for &c in &all {
                let inside = is_inside_by_edge_signs(a, b, c);
                assert_eq!(inside, is_inside_by_edge_signs(b, c, a));
                assert_eq!(inside, is_inside_by_edge_signs(!a, !b, !c));
            }
        }
    }
}

#[test]
fn new_rasterizer_is_black() {
    let r = Rasterizer::new(3, 2);
    assert_eq!(r.width, 3);
    assert_eq!(r.height, 2);
    assert_eq!(r.frame_buff, vec![black(); 6]);
}

#[test]
fn new_rasterizer_of_zero_size_is_empty() {
    let r = Rasterizer::new(0, 5);
    assert_eq!(r.frame_buff.len(), 0);
    assert_eq!(r.height, 5);
}

#[test]
fn resize_grows_with_black_and_keeps_size_fields() {
    let mut r = Rasterizer::new(2, 2);
    let red = Color::new(255, 0, 0);
    r.frame_buff[0] = red;
    r.frame_buff[3] = red;
    r.resize(3, 2);
    assert_eq!(r.frame_buff, vec![red, black(), black(), red, black(), black()]);
    assert_eq!((r.width, r.height), (2, 2));
}

#[test]
fn resize_shrinks_keeping_first_pixels() {
    let mut r = Rasterizer::new(2, 2);
    let blue = Color::new(0, 0, 255);
    r.frame_buff[1] = blue;
    r.frame_buff[3] = blue;
    r.resize(1, 2);
    assert_eq!(r.frame_buff, vec![black(), blue]);
    r.resize(0, 9);
    assert!(r.frame_buff.is_empty());
}

#[test]
fn resize_to_same_size_changes_nothing() {
    let mut r = Rasterizer::new(2, 2);
    let green = Color::new(0, 255, 0);
    r.frame_buff[2] = green;
    let before = r.frame_buff.clone();
    r.resize(4, 1);
    assert_eq!(r.frame_buff, before);
}

#[test]
fn resize_twice_is_resize_once() {
    let mut a = Rasterizer::new(3, 1);
    a.frame_buff[1] = Color::new(1, 2, 3);
    let mut b = Rasterizer::new(3, 1);
    b.frame_buff[1] = Color::new(1, 2, 3);
    a.resize(5, 1);
    b.resize(5, 1);
    b.resize(5, 1);
    assert_eq!(a.frame_buff, b.frame_buff);
}

#[test]
fn clear_paints_every_pixel_black() {
    let mut r = Rasterizer::new(2, 3);
    for p in r.frame_buff.iter_mut() {
        *p = Color::new(9, 8, 7);
    }
    r.clear();
    assert_eq!(r.frame_buff, vec![black(); 6]);
    assert_eq!((r.width, r.height), (2, 3));
    r.clear();
    assert_eq!(r.frame_buff, vec![black(); 6]);
}

#[test]
fn resize_then_clear_is_a_fresh_frame() {
    let mut r = Rasterizer::new(2, 2);
    r.frame_buff[0] = Color::new(4, 4, 4);
    r.resize(3, 3);
    r.clear();
    assert_eq!(r.frame_buff, Rasterizer::new(3, 3).frame_buff);
}

#[test]
fn real_size_doubles_the_rows() {
    assert_eq!(real_size(80, 24), (80, 48));
    assert_eq!(real_size(0, 0), (0, 0));
    assert_eq!(real_size(u16::MAX, u16::MAX), (65535, 131070));
}

#[test]
fn resize_target_only_on_a_new_size() {
    assert_eq!(resize_target(80, 24, 80, 24), None);
    assert_eq!(resize_target(80, 24, 100, 24), Some((100, 48)));
    assert_eq!(resize_target(80, 24, 80, 30), Some((80, 60)));
}

#[test]
fn printer_type_follows_the_flag() {
    assert_eq!(printer_type_from_arg(&"-a".to_string()), PrinterType::Ascii);
    assert_eq!(printer_type_from_arg(&"-c".to_string()), PrinterType::Color);
    assert_eq!(printer_type_from_arg(&"".to_string()), PrinterType::Color);
    assert_eq!(printer_type_from_arg(&"-a ".to_string()), PrinterType::Color);
}
