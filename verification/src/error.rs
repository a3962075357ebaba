use vstd::prelude::*;

verus! {

/// Why an encoded source image could not be turned into pixels.
#[derive(Clone, Copy, Debug, PartialEq, Eq, Structural)]
pub enum DecodeFault {
    /// The string holds no `,` that ends its header.
    MissingHeader,
    /// The payload is not valid base64.
    Payload,
    /// The payload bytes are not an image that can be read.
    Image,
}

/// Why a placement has no rendering.
#[derive(Clone, Copy, Debug, PartialEq, Eq, Structural)]
pub enum GeometryFault {
    /// The viewport lies wholly above or left of the image.
    NothingVisible,
    /// The part of the viewport inside the image is empty.
    EmptyCrop,
    /// The visible part scales to less than one pixel.
    Collapsed,
    /// A coordinate or a raster size is beyond what can be represented.
    Overflow,
}

/// The single failure reason of a batch.
#[derive(Clone, Copy, Debug, PartialEq, Eq, Structural)]
pub enum ArchiveError {
    /// A source image could not be decoded.
    DecodeError(DecodeFault),
    /// A placement names a source image that the request does not hold.
    InvalidSource,
    /// A placement cannot be rendered.
    GeometryError(GeometryFault),
    /// A rendered raster could not be encoded.
    EncodeError,
    /// The archive refused an entry or could not be closed.
    ContainerError,
}

impl ArchiveError {
    /// The stage of the work that failed, in words.
    pub open spec fn message_spec(&self) -> Seq<char> {
        match self {
            ArchiveError::DecodeError(_) => "Error decoding a source image"@,
            ArchiveError::InvalidSource => "Error with a source index"@,
            ArchiveError::GeometryError(_) => "Error placing the viewport"@,
            ArchiveError::EncodeError => "Error encoding a raster"@,
            ArchiveError::ContainerError => "Error writing the archive"@,
        }
    }

    /// A short description of the failure.
    pub fn message(&self) -> (s: &'static str)
        ensures
            s@ == self.message_spec(),
    {
        match self {
            ArchiveError::DecodeError(_) => "Error decoding a source image",
            ArchiveError::InvalidSource => "Error with a source index",
            ArchiveError::GeometryError(_) => "Error placing the viewport",
            ArchiveError::EncodeError => "Error encoding a raster",
            ArchiveError::ContainerError => "Error writing the archive",
        }
    }
}

} // verus!
