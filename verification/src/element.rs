use vstd::prelude::*;

verus! {

/// An element's bounding box as the text report shows it: each coordinate in
/// viewport CSS pixels, already rounded to a whole number and rendered.
#[derive(Debug)]
pub struct RoundedBox {
    pub x: String,
    pub y: String,
    pub width: String,
    pub height: String,
}

/// Information about a DOM element found via a CSS selector.
#[derive(Debug)]
pub struct ElementInfo {
    /// CSS selector used to find this element.
    pub selector: String,
    /// Tag name, lower case (e.g. "div", "button", "input").
    pub tag_name: String,
    /// Trimmed text content, if any.
    pub text: Option<String>,
    /// Bounding box in viewport coordinates, when the element has a width.
    pub bounding_box: Option<RoundedBox>,
    /// Whether the element has a non-zero width and height.
    pub visible: bool,
    /// Number of elements matching the selector.
    pub match_count: usize,
    /// Index of this element among the matches (0-based).
    pub match_index: usize,
}

/// A `fetch` or `XMLHttpRequest` call captured in the page.
#[derive(Debug)]
pub struct NetworkRequest {
    pub url: String,
    pub method: String,
    pub status: Option<u16>,
    pub resource_type: Option<String>,
}

/// A console message captured in the page.
#[derive(Debug)]
pub struct ConsoleMessage {
    pub level: String,
    pub text: String,
}

} // verus!
