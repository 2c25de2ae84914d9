use image::GenericImageView;
use image_service::codec::resize_image;
use image_service::format::{get_image_format, ImageFormat, ImageOutputFormat};
use image_service::service::{compose_image_name, mime_subtype, Fetch, FetchError, ImageUpload, Step};
use image_service::storage::StorageError;

fn png_of(width: u32, height: u32) -> Vec<u8> {
    let img = image::DynamicImage::new_rgb8(width, height);
    let mut out = std::io::Cursor::new(Vec::new());
    img.write_to(&mut out, image::ImageOutputFormat::Png).unwrap();
    out.into_inner()
}

fn expect_read(step: Step) -> String {
    match step {
        Step::Read(key) => key,
        _ => panic!("expected a read"),
    }
}

fn expect_write(step: Step) -> (String, Vec<u8>) {
    match step {
        Step::Write(key, data) => (key, data),
        _ => panic!("expected a write"),
    }
}

fn expect_reply(step: Step) -> Result<(Vec<u8>, &'static str), FetchError> {
    match step {
        Step::Reply(r) => r,
        _ => panic!("expected a reply"),
    }
}

#[test]
fn subtype_is_text_after_last_slash() {
    assert_eq!(mime_subtype("image/png"), "png");
    assert_eq!(mime_subtype("a/b/gif"), "gif");
    assert_eq!(mime_subtype("png"), "png");
    assert_eq!(mime_subtype(""), "");
    assert_eq!(mime_subtype("image/"), "");
}

#[test]
fn name_joins_token_and_subtype() {
    assert_eq!(compose_image_name("tok", "image/png"), "tok.png");
    assert_eq!(compose_image_name("tok", "text"), "tok.text");
}

#[test]
fn upload_names_png_and_writes_original() {
    let upload = ImageUpload::new("image/png");
    let name = upload.image_name.clone();
    assert_eq!(name.len(), 40);
    assert!(name.ends_with(".png"));
    assert_eq!(get_image_format(&name), Some(ImageFormat::Png));
    assert_eq!(upload.key(), format!("images/{}", name));
    assert_eq!(upload.finish(Some(200)), Ok(name));
}

#[test]
fn upload_tokens_are_fresh() {
    let a = ImageUpload::new("image/gif");
    let b = ImageUpload::new("image/gif");
    assert_ne!(a.image_name, b.image_name);
}

#[test]
fn failed_upload_returns_no_name() {
    let upload = ImageUpload::new("image/jpeg");
    assert_eq!(upload.finish(Some(403)), Err(StorageError::WriteFailed));
    let upload = ImageUpload::new("image/jpeg");
    assert_eq!(upload.finish(None), Err(StorageError::WriteFailed));
}

#[test]
fn round_trip_without_sides() {
    let upload = ImageUpload::new("image/png");
    let name = upload.image_name.clone();
    let written_key = upload.key();
    let bytes = vec![9u8, 8, 7, 6];
    assert!(upload.finish(Some(200)).is_ok());
    let (mut fetch, step) = Fetch::begin(&name, None, None);
    assert_eq!(expect_read(step), written_key);
    let reply = expect_reply(fetch.on_read(Some(bytes.clone())));
    assert_eq!(reply, Ok((bytes, "image/png")));
}

#[test]
fn resize_to_width_keeps_aspect() {
    let (mut fetch, step) = Fetch::begin("X.png", Some(100), None);
    assert_eq!(expect_read(step), "cache/X.png_100_0");
    assert_eq!(expect_read(fetch.on_read(None)), "images/X.png");
    let (key, data) = expect_write(fetch.on_read(Some(png_of(200, 100))));
    assert_eq!(key, "cache/X.png_100_0");
    let decoded = image::load_from_memory_with_format(&data, image::ImageFormat::Png).unwrap();
    assert_eq!(decoded.dimensions(), (100, 50));
    let reply = expect_reply(fetch.on_write(true));
    assert_eq!(reply, Ok((data, "image/png")));
}

#[test]
fn resize_to_height_keeps_aspect() {
    let (mut fetch, _) = Fetch::begin("Y.png", None, Some(25));
    expect_read(fetch.on_read(None));
    let (key, data) = expect_write(fetch.on_read(Some(png_of(200, 100))));
    assert_eq!(key, "cache/Y.png_0_25");
    let decoded = image::load_from_memory(&data).unwrap();
    assert_eq!(decoded.dimensions(), (50, 25));
}

#[test]
fn resize_populates_cache() {
    let (mut fetch, step) = Fetch::begin("Z.png", Some(50), Some(50));
    let lookup_key = expect_read(step);
    assert_eq!(lookup_key, "cache/Z.png_50_50");
    expect_read(fetch.on_read(None));
    let (key, written) = expect_write(fetch.on_read(Some(png_of(200, 100))));
    assert_eq!(key, lookup_key);
    assert!(!written.is_empty());
    let (served, content_type) = expect_reply(fetch.on_write(true)).unwrap();
    assert_eq!(served, written);
    assert_eq!(content_type, "image/png");
    let decoded = image::load_from_memory(&written).unwrap();
    assert_eq!(decoded.dimensions(), (50, 50));

    let (mut again, step) = Fetch::begin("Z.png", Some(50), Some(50));
    assert_eq!(expect_read(step), key);
    let reply = expect_reply(again.on_read(Some(written.clone())));
    assert_eq!(reply, Ok((written, "image/png")));
}

#[test]
fn failed_cache_write_still_serves() {
    let (mut fetch, _) = Fetch::begin("W.png", Some(20), Some(10));
    expect_read(fetch.on_read(None));
    let (_, written) = expect_write(fetch.on_read(Some(png_of(40, 40))));
    assert!(fetch.waits_for_write());
    let reply = expect_reply(fetch.on_write(false));
    assert_eq!(reply, Ok((written, "image/png")));
    assert!(!fetch.waits_for_read());
    assert!(!fetch.waits_for_write());
}

#[test]
fn missing_identifier_is_not_found() {
    let (mut fetch, _) = Fetch::begin("missing.png", None, None);
    assert!(fetch.waits_for_read());
    assert_eq!(expect_reply(fetch.on_read(None)), Err(FetchError::NotFound));

    let (mut fetch, _) = Fetch::begin("missing.png", Some(10), Some(10));
    assert_eq!(expect_read(fetch.on_read(None)), "images/missing.png");
    assert_eq!(expect_reply(fetch.on_read(None)), Err(FetchError::NotFound));
}

#[test]
fn unknown_format_is_not_found_on_resize() {
    let (mut fetch, _) = Fetch::begin("clip.mov", Some(10), None);
    expect_read(fetch.on_read(None));
    assert_eq!(expect_reply(fetch.on_read(Some(png_of(20, 20)))), Err(FetchError::NotFound));
}

#[test]
fn cached_hit_of_unknown_format_is_served_as_jpeg() {
    let (mut fetch, _) = Fetch::begin("clip.mov", Some(10), None);
    let reply = expect_reply(fetch.on_read(Some(vec![1, 2])));
    assert_eq!(reply, Ok((vec![1, 2], "image/jpeg")));
}

#[test]
fn corrupt_original_is_decode_failure() {
    let (mut fetch, _) = Fetch::begin("bad.png", Some(10), None);
    expect_read(fetch.on_read(None));
    assert_eq!(expect_reply(fetch.on_read(Some(vec![1, 2, 3]))), Err(FetchError::DecodeFailure));
}

#[test]
fn resize_image_encodes_requested_format() {
    let out = resize_image(
        &png_of(30, 20),
        Some(15),
        None,
        ImageFormat::Png,
        ImageOutputFormat::Jpeg(75),
    )
    .unwrap();
    let decoded = image::load_from_memory_with_format(&out, image::ImageFormat::Jpeg).unwrap();
    assert_eq!(decoded.dimensions(), (15, 10));
}

#[test]
fn resize_image_rejects_wrong_format() {
    let r = resize_image(&png_of(4, 4), Some(2), None, ImageFormat::Gif, ImageOutputFormat::Gif);
    assert_eq!(r, Err(FetchError::DecodeFailure));
}

#[test]
fn oversized_request_is_refused() {
    let r = resize_image(
        &png_of(4, 4),
        Some(u32::MAX),
        Some(u32::MAX),
        ImageFormat::Png,
        ImageOutputFormat::Png,
    );
    assert_eq!(r, Err(FetchError::TooLarge));
}

#[test]
fn jpeg_original_is_resized_as_jpeg() {
    let img = image::DynamicImage::new_rgb8(40, 20);
    let mut out = std::io::Cursor::new(Vec::new());
    img.write_to(&mut out, image::ImageOutputFormat::Jpeg(90)).unwrap();
    let (mut fetch, _) = Fetch::begin("J.jpg", Some(10), None);
    expect_read(fetch.on_read(None));
    let (key, data) = expect_write(fetch.on_read(Some(out.into_inner())));
    assert_eq!(key, "cache/J.jpg_10_0");
    let decoded = image::load_from_memory_with_format(&data, image::ImageFormat::Jpeg).unwrap();
    assert_eq!(decoded.dimensions(), (10, 5));
    assert_eq!(expect_reply(fetch.on_write(true)), Ok((data, "image/jpeg")));
}
