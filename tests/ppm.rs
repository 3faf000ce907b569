use raytracer::ppm::{write_decimal, write_header, write_line, write_pixel};

fn text(bytes: Vec<u8>) -> String {
    String::from_utf8(bytes).unwrap()
}

#[test]
fn decimal_digits() {
    for n in [0u32, 7, 10, 255, 1000, 4294967295] {
        let mut out = Vec::new();
        write_decimal(&mut out, n);
        assert_eq!(text(out), n.to_string());
    }
}

#[test]
fn header_of_a_small_image() {
    let mut out = Vec::new();
    write_header(&mut out, 400, 250);
    assert_eq!(text(out), "P3\n400 250\n255\n");
}

#[test]
fn header_of_a_two_by_two_image() {
    let mut out = Vec::new();
    write_header(&mut out, 2, 2);
    assert_eq!(text(out), "P3\n2 2\n255\n");
}

#[test]
fn one_pixel_line() {
    let mut out = b"x".to_vec();
    write_pixel(&mut out, 255, 0, 17);
    assert_eq!(text(out), "x255 0 17\n");
}

#[test]
fn row_is_written_left_to_right() {
    let mut out = Vec::new();
    write_header(&mut out, 3, 1);
    write_line(&mut out, &vec![(1, 2, 3), (40, 50, 60), (255, 255, 255)]);
    assert_eq!(text(out), "P3\n3 1\n255\n1 2 3\n40 50 60\n255 255 255\n");
}

#[test]
fn empty_row_writes_nothing() {
    let mut out = Vec::new();
    write_line(&mut out, &Vec::new());
    assert!(out.is_empty());
}
