//! Value types of the library: output formats, request option enums, the
//! spatial annotation records, and their ghost views.

use vstd::prelude::*;

verus! {

/// Output format requested from the model.
#[derive(Debug, Clone)]
pub enum OutputFormat {
    /// Plain text response (default).
    Text,
    /// Point coordinates as `<point>` tags.
    Point,
    /// Bounding box coordinates as `<point_box>` tags.
    Box,
    /// Polygon coordinates as `<polygon>` tags.
    Polygon,
}

impl Default for OutputFormat {
    fn default() -> (r: Self)
        ensures
            r is Text,
    {
        OutputFormat::Text
    }
}

/// Style for caption requests.
#[derive(Debug, Clone)]
pub enum CaptionStyle {
    /// A brief, human-friendly caption (default).
    Concise,
    /// A thorough, detailed description.
    Detailed,
}

impl Default for CaptionStyle {
    fn default() -> (r: Self)
        ensures
            r is Concise,
    {
        CaptionStyle::Concise
    }
}

/// Output mode for OCR requests.
#[derive(Debug, Clone)]
pub enum OcrMode {
    /// Plain text extraction (default).
    Plain,
    /// Markdown-formatted output.
    Markdown,
    /// HTML markup output.
    Html,
}

impl Default for OcrMode {
    fn default() -> (r: Self)
        ensures
            r is Plain,
    {
        OcrMode::Plain
    }
}

/// Ghost view of a point annotation.
pub ghost struct PointV {
    pub x: u32,
    pub y: u32,
    pub mention: Option<Seq<char>>,
}

/// Ghost view of a bounding box annotation.
pub ghost struct BoxV {
    pub x1: u32,
    pub y1: u32,
    pub x2: u32,
    pub y2: u32,
    pub mention: Option<Seq<char>>,
}

/// Ghost view of a polygon annotation.
pub ghost struct PolygonV {
    pub hull: Seq<(u32, u32)>,
    pub mention: Option<Seq<char>>,
}

/// Ghost view of a `Pointing` payload.
pub ghost enum PointingV {
    Points(Seq<PointV>),
    Boxes(Seq<BoxV>),
    Polygons(Seq<PolygonV>),
}

/// A point annotation extracted from model output.
#[derive(Debug, Clone, PartialEq)]
pub struct Point {
    /// X coordinate.
    pub x: u32,
    /// Y coordinate.
    pub y: u32,
    /// Optional label.
    pub mention: Option<String>,
}

impl View for Point {
    type V = PointV;

    open spec fn view(&self) -> PointV {
        PointV { x: self.x, y: self.y, mention: self.mention.deep_view() }
    }
}

impl DeepView for Point {
    type V = PointV;

    open spec fn deep_view(&self) -> PointV {
        self.view()
    }
}

/// A bounding box annotation extracted from model output.
#[derive(Debug, Clone, PartialEq)]
pub struct BoundingBox {
    /// First corner X coordinate.
    pub x1: u32,
    /// First corner Y coordinate.
    pub y1: u32,
    /// Second corner X coordinate.
    pub x2: u32,
    /// Second corner Y coordinate.
    pub y2: u32,
    /// Optional label.
    pub mention: Option<String>,
}

impl View for BoundingBox {
    type V = BoxV;

    open spec fn view(&self) -> BoxV {
        BoxV {
            x1: self.x1,
            y1: self.y1,
            x2: self.x2,
            y2: self.y2,
            mention: self.mention.deep_view(),
        }
    }
}

impl DeepView for BoundingBox {
    type V = BoxV;

    open spec fn deep_view(&self) -> BoxV {
        self.view()
    }
}

/// A polygon annotation extracted from model output. The hull is the
/// ordered list of vertex pairs exactly as they appear in the source tag.
#[derive(Debug, Clone, PartialEq)]
pub struct Polygon {
    /// Polygon hull as `(x, y)` pairs.
    pub hull: Vec<(u32, u32)>,
    /// Optional label.
    pub mention: Option<String>,
}

impl View for Polygon {
    type V = PolygonV;

    open spec fn view(&self) -> PolygonV {
        PolygonV { hull: self.hull@, mention: self.mention.deep_view() }
    }
}

impl DeepView for Polygon {
    type V = PolygonV;

    open spec fn deep_view(&self) -> PolygonV {
        self.view()
    }
}

/// Pointing data extracted from model output — exactly one spatial kind.
#[derive(Debug, Clone, PartialEq)]
pub enum Pointing {
    /// Point annotations.
    Points(Vec<Point>),
    /// Bounding box annotations.
    Boxes(Vec<BoundingBox>),
    /// Polygon annotations.
    Polygons(Vec<Polygon>),
}

impl View for Pointing {
    type V = PointingV;

    open spec fn view(&self) -> PointingV {
        match self {
            Pointing::Points(v) => PointingV::Points(v.deep_view()),
            Pointing::Boxes(v) => PointingV::Boxes(v.deep_view()),
            Pointing::Polygons(v) => PointingV::Polygons(v.deep_view()),
        }
    }
}

impl DeepView for Pointing {
    type V = PointingV;

    open spec fn deep_view(&self) -> PointingV {
        self.view()
    }
}

/// Response for text-only requests.
#[derive(Debug, Clone)]
pub struct TextResponse {
    /// The main response content from the model.
    pub content: Option<String>,
    /// Chain-of-thought reasoning content, if reasoning was enabled.
    pub reasoning: Option<String>,
}

/// Response for spatial requests.
#[derive(Debug, Clone)]
pub struct PointingResponse {
    /// The main response content from the model.
    pub content: Option<String>,
    /// Chain-of-thought reasoning content, if reasoning was enabled.
    pub reasoning: Option<String>,
    /// Extracted spatial pointing data.
    pub pointing: Option<Pointing>,
}

} // verus!
