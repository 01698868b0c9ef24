use perceptron::media::{Media, MediaFormat, MediaType};

#[test]
fn media_format_media_type() {
    assert!(matches!(MediaFormat::Png.media_type(), MediaType::Image));
    assert!(matches!(MediaFormat::Jpeg.media_type(), MediaType::Image));
    assert!(matches!(MediaFormat::Webp.media_type(), MediaType::Image));
    assert!(matches!(MediaFormat::Mp4.media_type(), MediaType::Video));
    assert!(matches!(MediaFormat::Webm.media_type(), MediaType::Video));
}

#[test]
fn media_format_mime() {
    assert_eq!(MediaFormat::Png.mime(), "image/png");
    assert_eq!(MediaFormat::Jpeg.mime(), "image/jpeg");
    assert_eq!(MediaFormat::Webp.mime(), "image/webp");
    assert_eq!(MediaFormat::Mp4.mime(), "video/mp4");
    assert_eq!(MediaFormat::Webm.mime(), "video/webm");
}

#[test]
fn media_image_url() {
    let media = Media::image_url("https://example.com/img.png");
    assert!(matches!(media.media_type(), MediaType::Image));
    assert_eq!(media.to_url(), "https://example.com/img.png");
}

#[test]
fn media_video_url() {
    let media = Media::video_url("https://example.com/vid.mp4");
    assert!(matches!(media.media_type(), MediaType::Video));
    assert_eq!(media.to_url(), "https://example.com/vid.mp4");
}

#[test]
fn media_base64_image() {
    let media = Media::base64(MediaFormat::Png, "abc123");
    assert!(matches!(media.media_type(), MediaType::Image));
    assert_eq!(media.to_url(), "data:image/png;base64,abc123");
}

#[test]
fn media_base64_video() {
    let media = Media::base64(MediaFormat::Mp4, "xyz789");
    assert!(matches!(media.media_type(), MediaType::Video));
    assert_eq!(media.to_url(), "data:video/mp4;base64,xyz789");
}
