//! Media descriptors for requests: a media type, an encoding format, and a
//! media value that is either a URL or base64-encoded data, with the URL
//! form each of them takes on the wire.

use vstd::prelude::*;
use vstd::string::*;

verus! {

/// The type of media being processed.
#[derive(Debug, Clone)]
pub enum MediaType {
    /// Image media.
    Image,
    /// Video media.
    Video,
}

/// Media encoding format.
#[derive(Debug, Clone)]
pub enum MediaFormat {
    /// PNG image.
    Png,
    /// JPEG image.
    Jpeg,
    /// WebP image.
    Webp,
    /// MP4 video.
    Mp4,
    /// WebM video.
    Webm,
}

/// The media type a format belongs to.
pub open spec fn media_type_of_format(f: MediaFormat) -> MediaType {
    match f {
        MediaFormat::Png | MediaFormat::Jpeg | MediaFormat::Webp => MediaType::Image,
        MediaFormat::Mp4 | MediaFormat::Webm => MediaType::Video,
    }
}

/// The MIME type string of a format.
pub open spec fn mime_of(f: MediaFormat) -> Seq<char> {
    match f {
        MediaFormat::Png => "image/png"@,
        MediaFormat::Jpeg => "image/jpeg"@,
        MediaFormat::Webp => "image/webp"@,
        MediaFormat::Mp4 => "video/mp4"@,
        MediaFormat::Webm => "video/webm"@,
    }
}

impl MediaFormat {
    /// The media type this format belongs to.
    pub fn media_type(&self) -> (r: &MediaType)
        ensures
            *r == media_type_of_format(*self),
    {
        match self {
            MediaFormat::Png | MediaFormat::Jpeg | MediaFormat::Webp => &MediaType::Image,
            MediaFormat::Mp4 | MediaFormat::Webm => &MediaType::Video,
        }
    }

    /// The MIME type string, e.g. `image/png` or `video/mp4`.
    pub fn mime(&self) -> (r: String)
        ensures
            r@ == mime_of(*self),
    {
        match self {
            MediaFormat::Png => "image/png".to_owned(),
            MediaFormat::Jpeg => "image/jpeg".to_owned(),
            MediaFormat::Webp => "image/webp".to_owned(),
            MediaFormat::Mp4 => "video/mp4".to_owned(),
            MediaFormat::Webm => "video/webm".to_owned(),
        }
    }
}

/// Media for a request — either a URL or base64-encoded data.
#[derive(Debug, Clone)]
pub enum Media {
    /// A URL pointing to media.
    Url {
        /// The type of media.
        media_type: MediaType,
        /// The URL string.
        url: String,
    },
    /// Base64-encoded media data.
    Base64 {
        /// The media format.
        format: MediaFormat,
        /// The base64-encoded data.
        data: String,
    },
}

/// The media type of a media value.
pub open spec fn media_type_of_media(m: Media) -> MediaType {
    match m {
        Media::Url { media_type, .. } => media_type,
        Media::Base64 { format, .. } => media_type_of_format(format),
    }
}

/// The URL a media value takes in an API request: a URL as it stands, and
/// base64 data as a `data:` URL carrying its MIME type.
pub open spec fn url_of_media(m: Media) -> Seq<char> {
    match m {
        Media::Url { url, .. } => url@,
        Media::Base64 { format, data } => "data:"@ + mime_of(format) + ";base64,"@ + data@,
    }
}

impl Media {
    /// Create from an image URL.
    pub fn image_url(url: &str) -> (r: Self)
        ensures
            r matches Media::Url { media_type, url: u } && media_type is Image && u@ == url@,
    {
        Media::Url { media_type: MediaType::Image, url: url.to_owned() }
    }

    /// Create from a video URL.
    pub fn video_url(url: &str) -> (r: Self)
        ensures
            r matches Media::Url { media_type, url: u } && media_type is Video && u@ == url@,
    {
        Media::Url { media_type: MediaType::Video, url: url.to_owned() }
    }

    /// Create from base64-encoded data in the given format.
    pub fn base64(format: MediaFormat, data: &str) -> (r: Self)
        ensures
            r matches Media::Base64 { format: f, data: d } && f == format && d@ == data@,
    {
        Media::Base64 { format, data: data.to_owned() }
    }

    /// The media type of this media.
    pub fn media_type(&self) -> (r: &MediaType)
        ensures
            *r == media_type_of_media(*self),
    {
        match self {
            Media::Url { media_type, .. } => media_type,
            Media::Base64 { format, .. } => format.media_type(),
        }
    }

    /// The URL for use in API requests: `Url` media as-is, `Base64` media
    /// as a `data:{mime};base64,{data}` URL.
    pub fn to_url(&self) -> (r: String)
        ensures
            r@ == url_of_media(*self),
    {
        match self {
            Media::Url { url, .. } => url.clone(),
            Media::Base64 { format, data } => {
                let mut s = "data:".to_owned();
                let mime = format.mime();
                s.append(mime.as_str());
                s.append(";base64,");
                s.append(data.as_str());
                s
            },
        }
    }
}

} // verus!
