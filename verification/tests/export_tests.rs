use qrlan::export::{
    default_base_name, extension_of, qr_file_name, select_format, strip_extension_for,
    strip_known_extension, ExportFormat,
};

#[test]
fn default_base_name_is_snake_cased_with_suffix() {
    assert_eq!(default_base_name("Home 5G"), "home_5g_qrcode");
    assert_eq!(default_base_name("MyWifi"), "my_wifi_qrcode");
    assert_eq!(default_base_name("guest"), "guest_qrcode");
}

#[test]
fn known_extensions_are_stripped_in_any_case() {
    assert_eq!(strip_known_extension("file.pdf"), "file");
    assert_eq!(strip_known_extension("file.PDF"), "file");
    assert_eq!(strip_known_extension("a.tar.svg"), "a.tar");
    assert_eq!(strip_known_extension("photo.png"), "photo");
    assert_eq!(strip_known_extension("photo.jpg"), "photo");
}

#[test]
fn other_names_are_kept_whole() {
    assert_eq!(strip_known_extension("file.txt"), "file.txt");
    assert_eq!(strip_known_extension("file"), "file");
    assert_eq!(strip_known_extension("pdf"), "pdf");
}

#[test]
fn run_extension_is_stripped_for_image_names() {
    assert_eq!(strip_extension_for("photo.png", "png"), "photo");
    assert_eq!(strip_extension_for("photo.PNG", "png"), "photo");
    assert_eq!(strip_extension_for("photo.jpg", "png"), "photo.jpg");
    assert_eq!(strip_extension_for("photo", "png"), "photo");
    assert_eq!(strip_extension_for("png", "png"), "png");
}

#[test]
fn output_file_names_are_joined_with_a_dot() {
    assert_eq!(qr_file_name("home_5g_qrcode", "pdf"), "home_5g_qrcode.pdf");
    assert_eq!(qr_file_name("x", "svg"), "x.svg");
}

#[test]
fn format_selection_priority() {
    assert_eq!(select_format(true, false, false, false), ExportFormat::Console);
    assert_eq!(select_format(false, true, false, false), ExportFormat::Png);
    assert_eq!(select_format(false, false, true, false), ExportFormat::Jpg);
    assert_eq!(select_format(false, false, false, true), ExportFormat::Svg);
    assert_eq!(select_format(false, false, false, false), ExportFormat::Pdf);
}

#[test]
fn extensions_per_format() {
    assert_eq!(extension_of(ExportFormat::Png), Some("png"));
    assert_eq!(extension_of(ExportFormat::Jpg), Some("jpg"));
    assert_eq!(extension_of(ExportFormat::Svg), Some("svg"));
    assert_eq!(extension_of(ExportFormat::Pdf), Some("pdf"));
    assert_eq!(extension_of(ExportFormat::Console), None);
}
