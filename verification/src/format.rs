//! Image formats, the size record and the error type.
use vstd::prelude::*;
use vstd::string::StringExecFns;

verus! {

/// The I/O error carried by `ImError::IO`; the library only passes it along.
#[verifier::external_type_specification]
#[verifier::external_body]
pub struct ExIoError(std::io::Error);

/// The image formats that the scanner recognises.
#[non_exhaustive]
#[derive(Debug, Clone, Copy, PartialEq, Eq, Structural)]
pub enum ImFormat {
    GIF,
    PNG,
    BMP,
    JPEG,
    WEBP,
    QOI,
    PSD,
    XCF,
    ICO,
    AVIF,
    TIFF,
    OpenEXR,
}

/// Lower-case file-type name of a format ("OpenEXR" keeps its own spelling).
pub open spec fn format_name(f: ImFormat) -> Seq<char> {
    match f {
        ImFormat::GIF => "gif"@,
        ImFormat::PNG => "png"@,
        ImFormat::BMP => "bmp"@,
        ImFormat::JPEG => "jpeg"@,
        ImFormat::WEBP => "webp"@,
        ImFormat::QOI => "qoi"@,
        ImFormat::PSD => "psd"@,
        ImFormat::XCF => "xcf"@,
        ImFormat::ICO => "ico"@,
        ImFormat::AVIF => "avif"@,
        ImFormat::TIFF => "tiff"@,
        ImFormat::OpenEXR => "OpenEXR"@,
    }
}

/// The stable numeric code of a format, as exported through the C interface.
pub open spec fn format_code(f: ImFormat) -> u32 {
    match f {
        ImFormat::GIF => 1,
        ImFormat::PNG => 2,
        ImFormat::BMP => 3,
        ImFormat::JPEG => 4,
        ImFormat::WEBP => 5,
        ImFormat::QOI => 6,
        ImFormat::PSD => 7,
        ImFormat::XCF => 8,
        ImFormat::ICO => 9,
        ImFormat::AVIF => 10,
        ImFormat::TIFF => 11,
        ImFormat::OpenEXR => 12,
    }
}

impl ImFormat {
    pub fn name(&self) -> (r: &'static str)
        ensures
            r@ == format_name(*self),
    {
        match self {
            ImFormat::GIF => "gif",
            ImFormat::PNG => "png",
            ImFormat::BMP => "bmp",
            ImFormat::JPEG => "jpeg",
            ImFormat::WEBP => "webp",
            ImFormat::QOI => "qoi",
            ImFormat::PSD => "psd",
            ImFormat::XCF => "xcf",
            ImFormat::ICO => "ico",
            ImFormat::AVIF => "avif",
            ImFormat::TIFF => "tiff",
            ImFormat::OpenEXR => "OpenEXR",
        }
    }

    pub fn code(&self) -> (r: u32)
        ensures
            r == format_code(*self),
    {
        match self {
            ImFormat::GIF => 1,
            ImFormat::PNG => 2,
            ImFormat::BMP => 3,
            ImFormat::JPEG => 4,
            ImFormat::WEBP => 5,
            ImFormat::QOI => 6,
            ImFormat::PSD => 7,
            ImFormat::XCF => 8,
            ImFormat::ICO => 9,
            ImFormat::AVIF => 10,
            ImFormat::TIFF => 11,
            ImFormat::OpenEXR => 12,
        }
    }
}

/// Width and height of an image, with the format they were read from.
#[derive(Debug, Clone, Copy, PartialEq, Eq, Structural)]
pub struct ImInfo {
    pub width: u64,
    pub height: u64,
    pub format: ImFormat,
}

#[derive(Debug)]
pub enum ImError {
    IO(std::io::Error),
    UnknownFormat,
    ParserError(ImFormat),
}

pub type ImResult<T> = core::result::Result<T, ImError>;

impl core::convert::From<std::io::Error> for ImError {
    fn from(error: std::io::Error) -> (r: ImError) {
        ImError::IO(error)
    }
}

impl vstd::std_specs::convert::FromSpecImpl<std::io::Error> for ImError {
    open spec fn obeys_from_spec() -> bool {
        true
    }

    open spec fn from_spec(error: std::io::Error) -> ImError {
        ImError::IO(error)
    }
}

/// Renders an I/O error the way its `Display` does; nothing is stated of the text.
#[verifier::external_body]
fn io_error_text(error: &std::io::Error) -> String {
    error.to_string()
}

impl ImError {
    /// The human-readable message of the error.
    pub fn message(&self) -> (r: String)
        ensures
            self is UnknownFormat ==> r@ == "Unknown Format"@,
            self matches ImError::ParserError(f) ==> r@ == "Error parsing "@ + format_name(*f)
                + " image"@,
    {
        match self {
            ImError::IO(error) => io_error_text(error),
            ImError::UnknownFormat => String::from_str("Unknown Format"),
            ImError::ParserError(format) => {
                let mut text = String::from_str("Error parsing ");
                text.append(format.name());
                text.append(" image");
                text
            },
        }
    }
}

} // verus!
