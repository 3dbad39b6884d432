use vstd::prelude::*;

verus! {

/// An enumeration over supported color types and their bit depths
#[derive(Copy, PartialEq, Eq, Debug, Clone, Hash, Structural)]
pub enum ColorType {
    /// Pixel is grayscale
    Gray(u8),
    /// Pixel contains R, G and B channels
    RGB(u8),
    /// Pixel is an index into a color palette
    Palette(u8),
    /// Pixel is grayscale with an alpha channel
    GrayA(u8),
    /// Pixel is RGB with an alpha channel
    RGBA(u8),
}

/// An enumeration of image errors
#[derive(Debug)]
pub enum ImageError {
    /// The image is not formatted properly
    FormatError(String),
    /// The image's dimensions are either too small or too large
    DimensionError,
    /// The decoder does not support this image format
    UnsupportedError(String),
    /// The decoder does not support this color type
    UnsupportedColor(ColorType),
    /// Not enough data was provided to the decoder to decode the image
    NotEnoughData,
    /// The byte stream ended, or a seek target lay, before the data needed
    IoError,
    /// The end of the image has been reached
    ImageEnd,
}

impl ImageError {
    /// A short description of the error kind.
    pub fn description(&self) -> (r: String)
        ensures
            match self {
                ImageError::FormatError(_) => r@ == "Format error"@,
                ImageError::DimensionError => r@ == "Dimension error"@,
                ImageError::UnsupportedError(_) => r@ == "Unsupported error"@,
                ImageError::UnsupportedColor(_) => r@ == "Unsupported color"@,
                ImageError::NotEnoughData => r@ == "Not enough data"@,
                ImageError::IoError => r@ == "IO error"@,
                ImageError::ImageEnd => r@ == "Image end"@,
            },
    {
        match self {
            ImageError::FormatError(_) => "Format error".to_owned(),
            ImageError::DimensionError => "Dimension error".to_owned(),
            ImageError::UnsupportedError(_) => "Unsupported error".to_owned(),
            ImageError::UnsupportedColor(_) => "Unsupported color".to_owned(),
            ImageError::NotEnoughData => "Not enough data".to_owned(),
            ImageError::IoError => "IO error".to_owned(),
            ImageError::ImageEnd => "Image end".to_owned(),
        }
    }
}

/// Result of an image decoding process
pub type ImageResult<T> = Result<T, ImageError>;

} // verus!
