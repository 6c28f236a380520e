use raytracer::ppm::{encode_ppm, header, push_decimal, push_pixel};
use raytracer::render::scan_order;
use raytracer::vec3::{Color, Rgb};

fn text(bytes: &[u8]) -> String {
    String::from_utf8(bytes.to_vec()).unwrap()
}

#[test]
fn decimal_of_zero_single_digits_and_limits() {
    for (n, expected) in [(0usize, "0"), (7, "7"), (10, "10"), (255, "255"), (1200, "1200")] {
        let mut out = Vec::new();
        push_decimal(&mut out, n);
        assert_eq!(text(&out), expected);
    }
    let mut out = Vec::new();
    push_decimal(&mut out, usize::MAX);
    assert_eq!(text(&out), usize::MAX.to_string());
}

#[test]
fn decimal_appends_after_existing_bytes() {
    let mut out = b"x=".to_vec();
    push_decimal(&mut out, 42);
    assert_eq!(text(&out), "x=42");
}

#[test]
fn header_names_size_and_channel_maximum() {
    let mut out = Vec::new();
    header(&mut out, 1200, 800);
    assert_eq!(text(&out), "P3\n1200 800\n255\n");
}

#[test]
fn pixel_line_has_three_channels() {
    let mut out = Vec::new();
    push_pixel(&mut out, &Rgb::new(0, 128, 255));
    assert_eq!(text(&out), "0 128 255\n");
}

#[test]
fn rgb_channels_through_color() {
    let p = Rgb::new(9, 18, 27);
    assert_eq!((p.r(), p.g(), p.b()), (9, 18, 27));
}

#[test]
fn encode_two_by_one_image() {
    let pixels = vec![Rgb::new(1, 2, 3), Rgb::new(255, 0, 10)];
    let bytes = encode_ppm(2, 1, &pixels).unwrap();
    assert_eq!(text(&bytes), "P3\n2 1\n255\n1 2 3\n255 0 10\n");
}

#[test]
fn encode_empty_image() {
    let bytes = encode_ppm(0, 3, &Vec::new()).unwrap();
    assert_eq!(text(&bytes), "P3\n0 3\n255\n");
}

#[test]
fn encode_refuses_wrong_pixel_count() {
    let pixels = vec![Rgb::new(1, 2, 3)];
    assert!(encode_ppm(2, 1, &pixels).is_none());
    assert!(encode_ppm(0, 0, &pixels).is_none());
    assert!(encode_ppm(usize::MAX, 2, &pixels).is_none());
}

#[test]
fn scan_order_goes_top_row_first_left_to_right() {
    let order = scan_order(3, 2);
    assert_eq!(order, vec![(0, 1), (1, 1), (2, 1), (0, 0), (1, 0), (2, 0)]);
}

#[test]
fn scan_order_of_wide_single_row() {
    assert_eq!(scan_order(2, 1), vec![(0, 0), (1, 0)]);
}

#[test]
fn scan_order_of_empty_image() {
    assert!(scan_order(0, 5).is_empty());
    assert!(scan_order(4, 0).is_empty());
}

#[test]
fn scan_order_covers_every_pixel_once() {
    let (w, h) = (5usize, 4usize);
    let order = scan_order(w, h);
    assert_eq!(order.len(), w * h);
    for j in 0..h {
        for i in 0..w {
            assert_eq!(order.iter().filter(|&&p| p == (i, j)).count(), 1);
            assert_eq!(order[(h - 1 - j) * w + i], (i, j));
        }
    }
}
