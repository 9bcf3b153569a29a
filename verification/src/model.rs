//! The document model consumed by the layout engine and the placement
//! commands it produces.
//!
//! Text is carried as UTF-8 bytes (`Vec<u8>`); the wrap budget counts bytes,
//! so wrapping is by character count for ASCII text, a deliberate
//! simplification over measured glyph widths.

use vstd::prelude::*;
use vstd::string::StringExecFns;
use crate::style::{FontVariant, RunStyle};
use crate::geometry::{PageGeometry, DEFAULT_PAGE_WIDTH_UM, DEFAULT_PAGE_HEIGHT_UM,
    DEFAULT_MARGIN_UM};

verus! {

/// A contiguous span of text sharing one style within a paragraph.
#[derive(Clone, Debug, PartialEq, Eq)]
pub struct StyledRun {
    /// The run's text as UTF-8 bytes.
    pub text: Vec<u8>,
    /// The run's style attributes.
    pub style: RunStyle,
}

/// Mathematical model of a [`StyledRun`].
pub ghost struct RunView {
    /// The run's text.
    pub text: Seq<u8>,
    /// The run's style attributes.
    pub style: RunStyle,
}

impl View for StyledRun {
    type V = RunView;

    open spec fn view(&self) -> RunView {
        RunView { text: self.text@, style: self.style }
    }
}

/// An ordered sequence of styled runs.
#[derive(Clone, Debug, PartialEq, Eq)]
pub struct Paragraph {
    /// The runs, in reading order.
    pub runs: Vec<StyledRun>,
}

/// Mathematical model of a [`Paragraph`].
pub ghost struct ParagraphView {
    /// The runs, in reading order.
    pub runs: Seq<RunView>,
}

impl View for Paragraph {
    type V = ParagraphView;

    open spec fn view(&self) -> ParagraphView {
        ParagraphView { runs: self.runs@.map_values(|r: StyledRun| r@) }
    }
}

/// An embedded image: its name inside the container, its pixel dimensions
/// and its decoded RGB bytes.  The layout engine reads only the dimensions.
#[derive(Clone, Debug, PartialEq, Eq)]
pub struct ImageAsset {
    /// Name of the entry the image came from, as UTF-8 bytes.
    pub name: Vec<u8>,
    /// Width in pixels; must be positive for layout.
    pub pixel_width: u32,
    /// Height in pixels.
    pub pixel_height: u32,
    /// Decoded RGB pixel bytes, row-major.
    pub pixel_bytes: Vec<u8>,
}

/// Mathematical model of an [`ImageAsset`].
pub ghost struct ImageView {
    /// Name of the entry the image came from.
    pub name: Seq<u8>,
    /// Width in pixels.
    pub pixel_width: int,
    /// Height in pixels.
    pub pixel_height: int,
}

impl View for ImageAsset {
    type V = ImageView;

    open spec fn view(&self) -> ImageView {
        ImageView {
            name: self.name@,
            pixel_width: self.pixel_width as int,
            pixel_height: self.pixel_height as int,
        }
    }
}

impl ImageAsset {
    /// An image can be laid out when its width is positive, so that the
    /// width-driven scale is defined.
    pub open spec fn wf(self) -> bool {
        self.pixel_width >= 1
    }

    /// Builds an asset, rejecting a zero pixel width (for which no
    /// width-driven scale exists).  Malformed images are rejected here,
    /// before they reach the layout engine.
    pub fn new(name: Vec<u8>, pixel_width: u32, pixel_height: u32, pixel_bytes: Vec<u8>) -> (r:
        Option<ImageAsset>)
        ensures
            r is Some <==> pixel_width >= 1,
            r is Some ==> r->Some_0 == (ImageAsset { name, pixel_width, pixel_height, pixel_bytes })
                && r->Some_0.wf(),
    {
        if pixel_width >= 1 {
            Some(ImageAsset { name, pixel_width, pixel_height, pixel_bytes })
        } else {
            None
        }
    }
}

/// One positioned, styled output unit, ready for serialization.  Coordinates
/// are in micrometers from the page's lower-left corner; `y_um` is the
/// baseline for text and the top edge minus the scaled height for images.
#[derive(Clone, Debug, PartialEq, Eq)]
pub enum PlacementCommand {
    /// A single line of text at an absolute position.
    TextLine {
        /// Page the line is placed on, starting at 0.
        page_index: u64,
        /// Horizontal position of the line's left edge.
        x_um: i64,
        /// Vertical position of the line.
        y_um: i64,
        /// Font variant the line is rendered with.
        font: FontVariant,
        /// The line's text as UTF-8 bytes, each word followed by one space.
        text: Vec<u8>,
    },
    /// A single image at an absolute position with a uniform scale.
    ImagePlacement {
        /// Page the image is placed on, starting at 0.
        page_index: u64,
        /// Horizontal position of the image's left edge.
        x_um: i64,
        /// Vertical position of the image's bottom edge.
        y_um: i64,
        /// Uniform scale factor in parts per million.
        scale_ppm: i64,
        /// Index of the image in the asset list handed to the engine.
        asset_index: usize,
    },
}

/// Mathematical model of a [`PlacementCommand`].
pub ghost enum CmdView {
    /// A single line of text at an absolute position.
    TextLine {
        /// Page the line is placed on.
        page_index: int,
        /// Horizontal position of the line's left edge.
        x_um: int,
        /// Vertical position of the line.
        y_um: int,
        /// Font variant the line is rendered with.
        font: FontVariant,
        /// The line's text.
        text: Seq<u8>,
    },
    /// A single image at an absolute position with a uniform scale.
    ImagePlacement {
        /// Page the image is placed on.
        page_index: int,
        /// Horizontal position of the image's left edge.
        x_um: int,
        /// Vertical position of the image's bottom edge.
        y_um: int,
        /// Uniform scale factor in parts per million.
        scale_ppm: int,
        /// Index of the image in the asset list handed to the engine.
        asset_index: int,
    },
}

impl View for PlacementCommand {
    type V = CmdView;

    open spec fn view(&self) -> CmdView {
        match *self {
            PlacementCommand::TextLine { page_index, x_um, y_um, font, ref text } =>
                CmdView::TextLine {
                    page_index: page_index as int,
                    x_um: x_um as int,
                    y_um: y_um as int,
                    font,
                    text: text@,
                },
            PlacementCommand::ImagePlacement { page_index, x_um, y_um, scale_ppm, asset_index } =>
                CmdView::ImagePlacement {
                    page_index: page_index as int,
                    x_um: x_um as int,
                    y_um: y_um as int,
                    scale_ppm: scale_ppm as int,
                    asset_index: asset_index as int,
                },
        }
    }
}

/// The page a command is placed on.
pub open spec fn cmd_page(c: CmdView) -> int {
    match c {
        CmdView::TextLine { page_index, .. } => page_index,
        CmdView::ImagePlacement { page_index, .. } => page_index,
    }
}

/// The vertical position of a command.
pub open spec fn cmd_y(c: CmdView) -> int {
    match c {
        CmdView::TextLine { y_um, .. } => y_um,
        CmdView::ImagePlacement { y_um, .. } => y_um,
    }
}

/// The models of a sequence of commands.
pub open spec fn views_of(s: Seq<PlacementCommand>) -> Seq<CmdView> {
    s.map_values(|c: PlacementCommand| c@)
}

/// The models of a sequence of paragraphs.
pub open spec fn para_views(s: Seq<Paragraph>) -> Seq<ParagraphView> {
    s.map_values(|p: Paragraph| p@)
}

/// The models of a sequence of image assets.
pub open spec fn image_views(s: Seq<ImageAsset>) -> Seq<ImageView> {
    s.map_values(|a: ImageAsset| a@)
}

/// The error taxonomy of a whole conversion.  The layout engine itself is
/// total and contributes no variant; these classify failures of the
/// unverified reading, parsing and writing stages around it.
#[derive(Clone, Debug, PartialEq, Eq)]
pub enum ConversionError {
    /// Reading or writing a file failed.
    Io(String),
    /// The container archive could not be read.
    Zip(String),
    /// The document structure could not be parsed.
    Docx(String),
    /// An image could not be processed.
    Image(String),
    /// The output document could not be produced.
    Pdf(String),
    /// The input file is missing or has the wrong extension.
    InvalidInput(String),
}

impl ConversionError {
    /// A human-readable message naming the failure stage.
    pub fn message(&self) -> (r: String)
        ensures
            r@ == self.spec_message(),
    {
        let (prefix, detail): (&str, &String) = match self {
            ConversionError::Io(d) => ("IO error: ", d),
            ConversionError::Zip(d) => ("Zip error: ", d),
            ConversionError::Docx(d) => ("Docx parsing error: ", d),
            ConversionError::Image(d) => ("Image processing error: ", d),
            ConversionError::Pdf(d) => ("PDF creation error: ", d),
            ConversionError::InvalidInput(d) => ("Invalid input file: ", d),
        };
        let mut out = String::from_str(prefix);
        out.append(detail.as_str());
        out
    }

    /// The message [`ConversionError::message`] returns.
    pub open spec fn spec_message(self) -> Seq<char> {
        match self {
            ConversionError::Io(d) => "IO error: "@ + d@,
            ConversionError::Zip(d) => "Zip error: "@ + d@,
            ConversionError::Docx(d) => "Docx parsing error: "@ + d@,
            ConversionError::Image(d) => "Image processing error: "@ + d@,
            ConversionError::Pdf(d) => "PDF creation error: "@ + d@,
            ConversionError::InvalidInput(d) => "Invalid input file: "@ + d@,
        }
    }
}

/// The configuration of one conversion: the two file paths and the page
/// geometry, which is fixed at A4 with a 20 mm margin.
#[derive(Clone, Debug, PartialEq, Eq)]
pub struct Config {
    /// Path of the input container file.
    pub input_path: String,
    /// Path of the output document file.
    pub output_path: String,
    /// The page geometry used for every page.
    pub geometry: PageGeometry,
}

impl Config {
    /// Builds the configuration for one conversion run with the default
    /// page geometry.
    pub fn new(input_path: &str, output_path: &str) -> (r: Config)
        ensures
            r.input_path@ == input_path@,
            r.output_path@ == output_path@,
            r.geometry == (PageGeometry {
                width_um: DEFAULT_PAGE_WIDTH_UM,
                height_um: DEFAULT_PAGE_HEIGHT_UM,
                margin_um: DEFAULT_MARGIN_UM,
            }),
            r.geometry.wf(),
    {
        Config {
            input_path: String::from_str(input_path),
            output_path: String::from_str(output_path),
            geometry: PageGeometry {
                width_um: DEFAULT_PAGE_WIDTH_UM,
                height_um: DEFAULT_PAGE_HEIGHT_UM,
                margin_um: DEFAULT_MARGIN_UM,
            },
        }
    }
}

} // verus!
