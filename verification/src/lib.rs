//! Extraction of structured spatial annotations — points, bounding boxes and
//! polygons — from pseudo-XML tags embedded in free-form model output, plus
//! the plain value types, prompt construction and response shaping of the
//! surrounding SDK.

pub mod chat_completions;
pub mod client;
pub mod coords;
pub mod error;
pub mod media;
pub mod mention;
pub mod pointing;
pub mod scan;
pub mod text;
pub mod types;

pub use error::{ApiErrorDetail, ApiErrorResponse, ChatCompletionError, PerceptronError};
pub use media::{Media, MediaFormat, MediaType};
pub use types::{
    BoundingBox, CaptionStyle, OcrMode, OutputFormat, Point, Pointing, PointingResponse, Polygon,
    TextResponse,
};
