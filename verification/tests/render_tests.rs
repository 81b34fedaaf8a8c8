use qrlan::export::{console_export, image_export_bytes, render_qr_or_error, ExportFormat};
use qrlan::render::{
    center_line, console_render, console_render_width, create_qr_image, encode_qr_matrix,
    extract_modules, format_usize, module_scale, svg_of_matrix,
};

#[test]
fn qr_matrix_is_square_symbol() {
    let m = encode_qr_matrix("WIFI:S:Guest;T:nopass;;".as_bytes()).unwrap();
    assert!(21 <= m.size && m.size <= 177);
    assert_eq!(m.size % 4, 21 % 4);
    assert_eq!(m.modules.len(), m.size * m.size);
}

#[test]
fn oversized_payload_fails_to_encode() {
    let data = vec![b'a'; 5000];
    assert!(encode_qr_matrix(&data).is_none());
    assert!(create_qr_image(&data).is_none());
}

#[test]
fn bitmap_is_capped_square() {
    let payload = "WIFI:S:Guest;T:nopass;;";
    let b = create_qr_image(payload.as_bytes()).unwrap();
    let m = encode_qr_matrix(payload.as_bytes()).unwrap();
    let total = m.size + 8;
    // the largest integer module scale that fits under the cap
    assert_eq!(b.width, total * (2400 / total));
    assert_eq!(b.width, b.height);
    assert!(b.width <= 2400);
    assert!(b.width + total > 2400);
    assert_eq!(b.pixels.len(), b.width * b.height);
    assert!(b.pixels.iter().all(|p| *p == 0 || *p == 255));
}

#[test]
fn raster_round_trip_recovers_the_matrix() {
    let payload = "WIFI:S:Home 5G;T:WPA;P:s3cr3t!;;";
    let m = encode_qr_matrix(payload.as_bytes()).unwrap();
    let b = create_qr_image(payload.as_bytes()).unwrap();
    let total = m.size + 8;
    let scale = b.width / total;
    let back = extract_modules(&b, m.size, 4, scale);
    assert_eq!(back, m.modules);
}

#[test]
fn module_scale_picks_largest_fit() {
    assert_eq!(module_scale(29, 2400), 82);
    assert_eq!(module_scale(33, 2400), 72);
    assert_eq!(module_scale(2400, 2400), 1);
    assert_eq!(module_scale(3000, 2400), 1);
}

#[test]
fn quiet_zone_pixels_are_white() {
    let b = create_qr_image("WIFI:S:Guest;T:nopass;;".as_bytes()).unwrap();
    // the first pixel row lies inside the four-module border
    assert!(b.pixels[..b.width].iter().all(|p| *p == 255));
}

#[test]
fn console_lines_cover_bordered_symbol() {
    let m = encode_qr_matrix("WIFI:S:Guest;T:nopass;;".as_bytes()).unwrap();
    let total = console_render_width(&m, 4);
    assert_eq!(total, m.size + 8);
    let lines = console_render(&m, 4);
    assert_eq!(lines.len(), (total + 1) / 2);
    for line in &lines {
        assert_eq!(line.chars().count(), total);
    }
    // the top border is all light, shown as blank space
    assert!(lines[0].chars().all(|c| c == ' '));
    // the symbol itself shows dark modules
    assert!(lines[lines.len() / 2].chars().any(|c| c != ' '));
}

#[test]
fn centered_ssid_uses_floor_division_padding() {
    assert_eq!(center_line(11, "abc"), "    abc");
    assert_eq!(center_line(10, "abc"), "   abc");
    assert_eq!(center_line(4, "abc"), "abc");
}

#[test]
fn wide_ssid_is_left_aligned() {
    assert_eq!(center_line(3, "abc"), "abc");
    assert_eq!(center_line(2, "abc"), "abc");
}

#[test]
fn console_export_centers_ssid_against_render_width() {
    let c = console_export("WIFI:S:Guest;T:nopass;;".as_bytes(), "Guest").unwrap();
    let width = c.lines[0].chars().count();
    let pad = (width - "Guest".chars().count()) / 2;
    let mut expected = String::new();
    for _ in 0..pad {
        expected.push(' ');
    }
    expected.push_str("Guest");
    assert_eq!(c.ssid_line, expected);
}

#[test]
fn decimal_formatting() {
    assert_eq!(format_usize(0), "0");
    assert_eq!(format_usize(7), "7");
    assert_eq!(format_usize(10), "10");
    assert_eq!(format_usize(2400), "2400");
    assert_eq!(format_usize(123456789), "123456789");
}

#[test]
fn svg_document_shape() {
    let m = encode_qr_matrix("WIFI:S:Guest;T:nopass;;".as_bytes()).unwrap();
    let svg = svg_of_matrix(&m);
    assert!(svg.starts_with("<svg xmlns=\"http://www.w3.org/2000/svg\" viewBox=\"-4 -4 "));
    assert!(svg.ends_with("</svg>\n"));
    assert!(svg.contains("h1v1h-1z"));
    // a QR symbol always has its dark finder-pattern corner at the origin
    assert!(svg.contains("M0 0h1v1h-1z"));
}

#[test]
fn render_error_carries_its_message() {
    let data = vec![b'x'; 5000];
    let e = render_qr_or_error(&data).unwrap_err();
    assert_eq!(e.message(), "QR code image creation failed");
    assert!(render_qr_or_error("WIFI:S:A;T:nopass;;".as_bytes()).is_ok());
}

#[test]
fn png_bytes_carry_the_png_signature() {
    let b = create_qr_image("WIFI:S:Guest;T:nopass;;".as_bytes()).unwrap();
    let bytes = image_export_bytes(ExportFormat::Png, &b).unwrap();
    assert_eq!(&bytes[..8], &[137u8, 80, 78, 71, 13, 10, 26, 10]);
    assert!(bytes.len() != b.pixels.len());
}

#[test]
fn jpeg_bytes_carry_the_jpeg_signature() {
    let b = create_qr_image("WIFI:S:Guest;T:nopass;;".as_bytes()).unwrap();
    let bytes = image_export_bytes(ExportFormat::Jpg, &b).unwrap();
    assert_eq!(&bytes[..2], &[0xffu8, 0xd8]);
}
