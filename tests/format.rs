use image_service::dimensions::get_resize_dimensions;
use image_service::format::{
    content_header_for, get_content_header, get_image_format, get_image_output_format, ImageFormat,
    ImageOutputFormat,
};

#[test]
fn test_get_content_header() {
    let image_formats: [ImageFormat; 4] = [
        ImageFormat::Jpeg,
        ImageFormat::Png,
        ImageFormat::Ico,
        ImageFormat::Gif,
    ];
    let content_headers: [&'static str; 4] = ["image/jpeg", "image/png", "image/ico", "image/gif"];
    for (index, img_format) in image_formats.iter().enumerate() {
        let expected_content_header = content_headers[index];
        let actual_content_header = get_content_header(img_format);
        assert_eq!(expected_content_header, actual_content_header);
    }
}

#[test]
fn test_get_image_format() {
    let files: [&'static str; 8] = [
        "16029914-329c-404a-afe9-5a5a321f6824.jpeg",
        "aaa22222-d2a9-4a3e-8a83-6aa7abe1a784.jpg",
        "cf2a1735-d2a9-4a3e-8a83-6aa7abe1a784.png",
        "ff44a321-d2a9-4a3e-8a83-6aa7abe1a784.ico",
        "d880aa7f-d2a9-4a3e-8a83-6aa7abe1a784.gif",
        "33229914-329c-404a-afe9-5a5a321f6824.mov",
        "f91dbfb9-59eb-4bd2-8347-6ff372be40e4",
        "f91dbfb9-59eb-4bd2-8347-6ff372be40e4.name.png",
    ];
    let format: [Option<ImageFormat>; 8] = [
        Some(ImageFormat::Jpeg),
        Some(ImageFormat::Jpeg),
        Some(ImageFormat::Png),
        Some(ImageFormat::Ico),
        Some(ImageFormat::Gif),
        None,
        None,
        None,
    ];
    for (index, file) in files.iter().enumerate() {
        let expected_format = format[index];
        let actual_format = get_image_format(file);
        assert_eq!(expected_format, actual_format)
    }
}

#[test]
fn format_match_is_case_sensitive() {
    assert_eq!(get_image_format("abc.PNG"), None);
    assert_eq!(get_image_format("abc.Jpg"), None);
}

#[test]
fn format_needs_exactly_one_dot() {
    assert_eq!(get_image_format("png"), None);
    assert_eq!(get_image_format(""), None);
    assert_eq!(get_image_format(".png"), Some(ImageFormat::Png));
    assert_eq!(get_image_format("a..png"), None);
    assert_eq!(get_image_format("a.png."), None);
    assert_eq!(get_image_format("a."), None);
}

#[test]
fn output_format_follows_extension() {
    assert_eq!(get_image_output_format("a.jpeg"), Some(ImageOutputFormat::Jpeg(75)));
    assert_eq!(get_image_output_format("a.jpg"), Some(ImageOutputFormat::Jpeg(75)));
    assert_eq!(get_image_output_format("a.png"), Some(ImageOutputFormat::Png));
    assert_eq!(get_image_output_format("a.ico"), Some(ImageOutputFormat::Ico));
    assert_eq!(get_image_output_format("a.gif"), Some(ImageOutputFormat::Gif));
    assert_eq!(get_image_output_format("a.mov"), None);
    assert_eq!(get_image_output_format("a.b.gif"), None);
}

#[test]
fn content_header_defaults_to_jpeg() {
    assert_eq!(content_header_for("a.png"), "image/png");
    assert_eq!(content_header_for("a.gif"), "image/gif");
    assert_eq!(content_header_for("a.mov"), "image/jpeg");
    assert_eq!(content_header_for("a"), "image/jpeg");
    assert_eq!(content_header_for("a.b.png"), "image/jpeg");
}

#[test]
fn width_only_keeps_aspect_ratio() {
    assert_eq!(get_resize_dimensions(Some(100), None, (200, 100)), (100, 50));
    assert_eq!(get_resize_dimensions(Some(3), None, (2, 3)), (3, 4));
    assert_eq!(get_resize_dimensions(Some(1), None, (3, 2)), (1, 0));
}

#[test]
fn height_only_keeps_aspect_ratio() {
    assert_eq!(get_resize_dimensions(None, Some(50), (200, 100)), (100, 50));
    assert_eq!(get_resize_dimensions(None, Some(7), (10, 3)), (23, 7));
}

#[test]
fn both_sides_are_taken_verbatim() {
    assert_eq!(get_resize_dimensions(Some(10), Some(90), (200, 100)), (10, 90));
    assert_eq!(get_resize_dimensions(None, None, (200, 100)), (200, 100));
}

#[test]
fn scaled_side_saturates() {
    assert_eq!(get_resize_dimensions(Some(4), None, (1, u32::MAX)), (4, u32::MAX));
    assert_eq!(get_resize_dimensions(Some(u32::MAX), None, (u32::MAX, 1)), (u32::MAX, 1));
}
