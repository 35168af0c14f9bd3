//! What the engines that render pages have in common.

use std::sync::Arc;

use vstd::prelude::*;

pub mod accelerated;
pub mod blitz;
pub mod cef_dialog;
pub mod cef_engine;
pub mod cef_input;
pub mod paint;
pub mod servo;
pub mod views;

verus! {

/// Identifies a view inside an engine.
pub type ViewId = usize;

/// Calls `rand::thread_rng` and draws a number with `rand::Rng::gen`: any id at
/// all, so nothing is promised of it. The call panics where the system provides
/// no randomness.
#[verifier::external_body]
pub(crate) fn random_view_id() -> (id: ViewId) {
    rand::Rng::gen(&mut rand::thread_rng())
}

/// What a view is to show.
#[derive(Debug, PartialEq)]
pub enum PageType {
    /// The page at an address.
    Url(String),
    /// A page given as text.
    Html(String),
}

impl Clone for PageType {
    fn clone(&self) -> (copy: PageType)
        ensures
            copy == *self,
    {
        match self {
            PageType::Url(url) => PageType::Url(url.clone()),
            PageType::Html(html) => PageType::Html(html.clone()),
        }
    }
}

/// What a page wrote to its console.
#[derive(Debug)]
pub struct ConsoleMessage {
    pub level: i32,
    pub message: String,
    pub source: String,
    pub line: i32,
}

/// What a page wrote to its console, with texts for strings.
pub struct ConsoleView {
    pub level: i32,
    pub message: Seq<char>,
    pub source: Seq<char>,
    pub line: i32,
}

impl View for ConsoleMessage {
    type V = ConsoleView;

    open spec fn view(&self) -> ConsoleView {
        ConsoleView {
            level: self.level,
            message: self.message@,
            source: self.source@,
            line: self.line,
        }
    }
}

/// The order of the four bytes of a pixel.
#[derive(Clone, Copy, Debug, PartialEq, Eq, Structural)]
pub enum PixelFormat {
    Rgba,
    Bgra,
}

/// The image a view shows.
#[derive(Debug)]
pub enum FrameImage {
    /// Nothing yet, in a size.
    Blank { width: u32, height: u32 },
    /// A frame.
    Pixels { pixels: Arc<Vec<u8>>, format: PixelFormat, width: u32, height: u32 },
}

/// The image a view shows.
pub enum FrameImageView {
    Blank { width: u32, height: u32 },
    Pixels { pixels: Seq<u8>, format: PixelFormat, width: u32, height: u32 },
}

impl View for FrameImage {
    type V = FrameImageView;

    open spec fn view(&self) -> FrameImageView {
        match self {
            FrameImage::Blank { width, height } => FrameImageView::Blank {
                width: *width,
                height: *height,
            },
            FrameImage::Pixels { pixels, format, width, height } => FrameImageView::Pixels {
                pixels: pixels@,
                format: *format,
                width: *width,
                height: *height,
            },
        }
    }
}

/// An image of a view, ready to be shown.
#[derive(Debug)]
pub struct ImageInfo {
    pub pixels: Arc<Vec<u8>>,
    pub width: u32,
    pub height: u32,
    pub pixel_format: PixelFormat,
    /// Whether the image is a texture already, in which case there are no
    /// pixels.
    pub accelerated: bool,
}

/// The format of a texture: the order of its bytes, and whether the GPU
/// decodes them from sRGB on reading and encodes them on writing.
#[derive(Clone, Copy, Debug, PartialEq, Eq, Structural)]
pub enum TextureFormat {
    Rgba8Unorm,
    Rgba8UnormSrgb,
    Bgra8Unorm,
    Bgra8UnormSrgb,
}

impl TextureFormat {
    /// Whether the bytes are decoded and encoded.
    pub open spec fn srgb(self) -> bool {
        self == TextureFormat::Rgba8UnormSrgb || self == TextureFormat::Bgra8UnormSrgb
    }

    /// The order of the bytes.
    pub open spec fn order(self) -> PixelFormat {
        if self == TextureFormat::Rgba8Unorm || self == TextureFormat::Rgba8UnormSrgb {
            PixelFormat::Rgba
        } else {
            PixelFormat::Bgra
        }
    }
}

/// The four formats are told apart by the order of their bytes and by whether
/// they decode.
pub proof fn law_formats_by_order_and_decoding()
    ensures
        TextureFormat::Rgba8Unorm.order() == PixelFormat::Rgba,
        TextureFormat::Rgba8UnormSrgb.order() == PixelFormat::Rgba,
        TextureFormat::Bgra8Unorm.order() == PixelFormat::Bgra,
        TextureFormat::Bgra8UnormSrgb.order() == PixelFormat::Bgra,
        !TextureFormat::Rgba8Unorm.srgb(),
        TextureFormat::Rgba8UnormSrgb.srgb(),
        !TextureFormat::Bgra8Unorm.srgb(),
        TextureFormat::Bgra8UnormSrgb.srgb(),
{
}

/// An image shows the pixels it holds, in their order and size.
pub proof fn law_image_shows_its_pixels(
    pixels: Arc<Vec<u8>>,
    format: PixelFormat,
    width: u32,
    height: u32,
)
    ensures
        (FrameImage::Blank { width, height })@ == (FrameImageView::Blank { width, height }),
        (FrameImage::Pixels { pixels, format, width, height })@ == (FrameImageView::Pixels {
            pixels: pixels@,
            format,
            width,
            height,
        }),
{
}

} // verus!
