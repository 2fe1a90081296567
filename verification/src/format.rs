//! Pixel formats and the errors that end a session.

use vstd::prelude::*;
use vstd::string::StringExecFns;

verus! {

/// The layout of the pixels of a decoded image.
#[derive(Clone, Copy, Debug, PartialEq, Eq, Structural)]
pub enum PixelFormat {
    L8,
    La8,
    Rgb8,
    Rgba8,
    L16,
    La16,
    Rgb16,
    Rgba16,
    Rgb32F,
    Rgba32F,
    /// A layout that this crate has no name for.
    Other,
}

/// Why a session ended before the image was written.
#[derive(Clone, Copy, Debug, PartialEq, Eq, Structural)]
pub enum RecolorError {
    /// The source image could not be opened.
    SourceNotFound,
    /// The source image could not be decoded.
    DecodeFailure,
    /// The image is not in 8-bit RGBA.
    UnsupportedPixelFormat,
    /// No line could be read from the input.
    InputStreamFailure,
    /// A line of input is neither empty nor a colour. A session takes such
    /// a line as the wish to keep the colour and does not fail on it.
    MalformedColorInput,
    /// The image could not be written.
    OutputWriteFailure,
}

/// The name of a pixel format.
pub open spec fn format_name(format: PixelFormat) -> Seq<char> {
    match format {
        PixelFormat::L8 => "L8"@,
        PixelFormat::La8 => "La8"@,
        PixelFormat::Rgb8 => "Rgb8"@,
        PixelFormat::Rgba8 => "Rgba8"@,
        PixelFormat::L16 => "L16"@,
        PixelFormat::La16 => "La16"@,
        PixelFormat::Rgb16 => "Rgb16"@,
        PixelFormat::Rgba16 => "Rgba16"@,
        PixelFormat::Rgb32F => "Rgb32F"@,
        PixelFormat::Rgba32F => "Rgba32F"@,
        PixelFormat::Other => "unknown"@,
    }
}

/// The message that describes an error.
pub open spec fn error_message(error: RecolorError) -> Seq<char> {
    match error {
        RecolorError::SourceNotFound => "Failed to open image file"@,
        RecolorError::DecodeFailure => "Failed to decode image"@,
        RecolorError::UnsupportedPixelFormat => "Unsupported color type for recoloring"@,
        RecolorError::InputStreamFailure => "Failed to read line"@,
        RecolorError::MalformedColorInput => "Not a color in hex format"@,
        RecolorError::OutputWriteFailure => "Failed to save recolored image"@,
    }
}

impl PixelFormat {
    /// The name of the format.
    pub fn name(self) -> (name: &'static str)
        ensures
            name@ == format_name(self),
    {
        match self {
            PixelFormat::L8 => "L8",
            PixelFormat::La8 => "La8",
            PixelFormat::Rgb8 => "Rgb8",
            PixelFormat::Rgba8 => "Rgba8",
            PixelFormat::L16 => "L16",
            PixelFormat::La16 => "La16",
            PixelFormat::Rgb16 => "Rgb16",
            PixelFormat::Rgba16 => "Rgba16",
            PixelFormat::Rgb32F => "Rgb32F",
            PixelFormat::Rgba32F => "Rgba32F",
            PixelFormat::Other => "unknown",
        }
    }

    /// The line that reports the format of an image.
    pub fn report(self) -> (line: String)
        ensures
            line@ == "Image is encoded as: "@ + format_name(self),
    {
        let mut line = String::new();
        line.append("Image is encoded as: ");
        line.append(self.name());
        line
    }
}

impl RecolorError {
    /// The message that describes the error.
    pub fn message(self) -> (text: &'static str)
        ensures
            text@ == error_message(self),
    {
        match self {
            RecolorError::SourceNotFound => "Failed to open image file",
            RecolorError::DecodeFailure => "Failed to decode image",
            RecolorError::UnsupportedPixelFormat => "Unsupported color type for recoloring",
            RecolorError::InputStreamFailure => "Failed to read line",
            RecolorError::MalformedColorInput => "Not a color in hex format",
            RecolorError::OutputWriteFailure => "Failed to save recolored image",
        }
    }
}

/// Accepts 8-bit RGBA, the one format whose colours can be remapped, and
/// refuses every other.
pub fn require_rgba8(format: PixelFormat) -> (result: Result<(), RecolorError>)
    ensures
        result == if format == PixelFormat::Rgba8 {
            Ok::<(), RecolorError>(())
        } else {
            Err::<(), RecolorError>(RecolorError::UnsupportedPixelFormat)
        },
{
    match format {
        PixelFormat::Rgba8 => Ok(()),
        _ => Err(RecolorError::UnsupportedPixelFormat),
    }
}

} // verus!
