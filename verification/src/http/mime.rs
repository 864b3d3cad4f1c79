//! MIME types, as used in the `Content-Type` header.

use vstd::prelude::*;

use crate::text::{owned_string, str_eq};

verus! {

/// A MIME type as used in the `Content-Type` header.
#[derive(Clone, Copy, Debug, PartialEq, Eq, Structural)]
pub enum MimeType {
    /// The `text/css` MIME type.
    TextCss,
    /// The `text/html` MIME type.
    TextHtml,
    /// The `text/javascript` MIME type.
    TextJavaScript,
    /// The `text/plain` MIME type.
    TextPlain,
    /// The `image/bmp` MIME type.
    ImageBmp,
    /// The `image/gif` MIME type.
    ImageGif,
    /// The `image/jpeg` MIME type.
    ImageJpeg,
    /// The `image/png` MIME type.
    ImagePng,
    /// The `image/webp` MIME type.
    ImageWebp,
    /// The `image/svg+xml` MIME type.
    ImageSvg,
    /// The `image/vnd.microsoft.icon` MIME type.
    ImageIcon,
    /// The `application/octet-stream` MIME type.
    ApplicationOctetStream,
    /// The `application/json` MIME type.
    ApplicationJson,
    /// The `application/pdf` MIME type.
    ApplicationPdf,
    /// The `application/zip` MIME type.
    ApplicationZip,
    /// The `video/mp4` MIME type.
    VideoMp4,
    /// The `video/ogg` MIME type.
    VideoOgg,
    /// The `video/webm` MIME type.
    VideoWebm,
    /// The `font/ttf` MIME type.
    FontTtf,
    /// The `font/otf` MIME type.
    FontOtf,
    /// The `font/woff` MIME type.
    FontWoff,
    /// The `font/woff2` MIME type.
    FontWoff2,
}

/// The MIME type inferred from a file extension written without the `.`:
/// `application/octet-stream` when the extension is not known.
pub open spec fn mime_from_extension(extension: Seq<char>) -> MimeType {
    if extension == "css"@ {
        MimeType::TextCss
    } else if extension == "html"@ {
        MimeType::TextHtml
    } else if extension == "htm"@ {
        MimeType::TextHtml
    } else if extension == "js"@ {
        MimeType::TextJavaScript
    } else if extension == "txt"@ {
        MimeType::TextPlain
    } else if extension == "bmp"@ {
        MimeType::ImageBmp
    } else if extension == "gif"@ {
        MimeType::ImageGif
    } else if extension == "jpeg"@ {
        MimeType::ImageJpeg
    } else if extension == "jpg"@ {
        MimeType::ImageJpeg
    } else if extension == "png"@ {
        MimeType::ImagePng
    } else if extension == "webp"@ {
        MimeType::ImageWebp
    } else if extension == "svg"@ {
        MimeType::ImageSvg
    } else if extension == "ico"@ {
        MimeType::ImageIcon
    } else if extension == "json"@ {
        MimeType::ApplicationJson
    } else if extension == "pdf"@ {
        MimeType::ApplicationPdf
    } else if extension == "zip"@ {
        MimeType::ApplicationZip
    } else if extension == "mp4"@ {
        MimeType::VideoMp4
    } else if extension == "ogv"@ {
        MimeType::VideoOgg
    } else if extension == "webm"@ {
        MimeType::VideoWebm
    } else if extension == "ttf"@ {
        MimeType::FontTtf
    } else if extension == "otf"@ {
        MimeType::FontOtf
    } else if extension == "woff"@ {
        MimeType::FontWoff
    } else if extension == "woff2"@ {
        MimeType::FontWoff2
    } else {
        MimeType::ApplicationOctetStream
    }
}

impl MimeType {
    /// The text of the MIME type.
    pub open spec fn spec_text(self) -> Seq<char> {
        match self {
            MimeType::TextCss => "text/css"@,
            MimeType::TextHtml => "text/html"@,
            MimeType::TextJavaScript => "text/javascript"@,
            MimeType::TextPlain => "text/plain"@,
            MimeType::ImageBmp => "image/bmp"@,
            MimeType::ImageGif => "image/gif"@,
            MimeType::ImageJpeg => "image/jpeg"@,
            MimeType::ImagePng => "image/png"@,
            MimeType::ImageWebp => "image/webp"@,
            MimeType::ImageSvg => "image/svg+xml"@,
            MimeType::ImageIcon => "image/vnd.microsoft.icon"@,
            MimeType::ApplicationOctetStream => "application/octet-stream"@,
            MimeType::ApplicationJson => "application/json"@,
            MimeType::ApplicationPdf => "application/pdf"@,
            MimeType::ApplicationZip => "application/zip"@,
            MimeType::VideoMp4 => "video/mp4"@,
            MimeType::VideoOgg => "video/ogg"@,
            MimeType::VideoWebm => "video/webm"@,
            MimeType::FontTtf => "font/ttf"@,
            MimeType::FontOtf => "font/otf"@,
            MimeType::FontWoff => "font/woff"@,
            MimeType::FontWoff2 => "font/woff2"@,
        }
    }

    /// Converts a file extension without the `.` to a MIME type; if the type cannot be
    /// inferred from the extension, returns `MimeType::ApplicationOctetStream`.
    pub fn from_extension(extension: &str) -> (r: MimeType)
        ensures
            r == mime_from_extension(extension@),
    {
        if str_eq(extension, "css") {
            MimeType::TextCss
        } else if str_eq(extension, "html") {
            MimeType::TextHtml
        } else if str_eq(extension, "htm") {
            MimeType::TextHtml
        } else if str_eq(extension, "js") {
            MimeType::TextJavaScript
        } else if str_eq(extension, "txt") {
            MimeType::TextPlain
        } else if str_eq(extension, "bmp") {
            MimeType::ImageBmp
        } else if str_eq(extension, "gif") {
            MimeType::ImageGif
        } else if str_eq(extension, "jpeg") {
            MimeType::ImageJpeg
        } else if str_eq(extension, "jpg") {
            MimeType::ImageJpeg
        } else if str_eq(extension, "png") {
            MimeType::ImagePng
        } else if str_eq(extension, "webp") {
            MimeType::ImageWebp
        } else if str_eq(extension, "svg") {
            MimeType::ImageSvg
        } else if str_eq(extension, "ico") {
            MimeType::ImageIcon
        } else if str_eq(extension, "json") {
            MimeType::ApplicationJson
        } else if str_eq(extension, "pdf") {
            MimeType::ApplicationPdf
        } else if str_eq(extension, "zip") {
            MimeType::ApplicationZip
        } else if str_eq(extension, "mp4") {
            MimeType::VideoMp4
        } else if str_eq(extension, "ogv") {
            MimeType::VideoOgg
        } else if str_eq(extension, "webm") {
            MimeType::VideoWebm
        } else if str_eq(extension, "ttf") {
            MimeType::FontTtf
        } else if str_eq(extension, "otf") {
            MimeType::FontOtf
        } else if str_eq(extension, "woff") {
            MimeType::FontWoff
        } else if str_eq(extension, "woff2") {
            MimeType::FontWoff2
        } else {
            MimeType::ApplicationOctetStream
        }
    }

    /// The text of the MIME type, e.g. `text/html`.
    pub fn as_str(self) -> (r: &'static str)
        ensures
            r@ == self.spec_text(),
    {
        match self {
            MimeType::TextCss => "text/css",
            MimeType::TextHtml => "text/html",
            MimeType::TextJavaScript => "text/javascript",
            MimeType::TextPlain => "text/plain",
            MimeType::ImageBmp => "image/bmp",
            MimeType::ImageGif => "image/gif",
            MimeType::ImageJpeg => "image/jpeg",
            MimeType::ImagePng => "image/png",
            MimeType::ImageWebp => "image/webp",
            MimeType::ImageSvg => "image/svg+xml",
            MimeType::ImageIcon => "image/vnd.microsoft.icon",
            MimeType::ApplicationOctetStream => "application/octet-stream",
            MimeType::ApplicationJson => "application/json",
            MimeType::ApplicationPdf => "application/pdf",
            MimeType::ApplicationZip => "application/zip",
            MimeType::VideoMp4 => "video/mp4",
            MimeType::VideoOgg => "video/ogg",
            MimeType::VideoWebm => "video/webm",
            MimeType::FontTtf => "font/ttf",
            MimeType::FontOtf => "font/otf",
            MimeType::FontWoff => "font/woff",
            MimeType::FontWoff2 => "font/woff2",
        }
    }

    /// The text of the MIME type as an owned string.
    pub fn to_string(self) -> (r: String)
        ensures
            r@ == self.spec_text(),
    {
        owned_string(self.as_str())
    }
}

} // verus!

verus! {

/// The media type registered (with IANA) for files with an extension written without
/// the `.`, for the extensions this library knows; `application/octet-stream`, the type
/// of arbitrary bytes, for any other.
pub open spec fn registered_media_type(extension: Seq<char>) -> Seq<char> {
    if extension == "css"@ {
        "text/css"@
    } else if extension == "html"@ {
        "text/html"@
    } else if extension == "htm"@ {
        "text/html"@
    } else if extension == "js"@ {
        "text/javascript"@
    } else if extension == "txt"@ {
        "text/plain"@
    } else if extension == "bmp"@ {
        "image/bmp"@
    } else if extension == "gif"@ {
        "image/gif"@
    } else if extension == "jpeg"@ {
        "image/jpeg"@
    } else if extension == "jpg"@ {
        "image/jpeg"@
    } else if extension == "png"@ {
        "image/png"@
    } else if extension == "webp"@ {
        "image/webp"@
    } else if extension == "svg"@ {
        "image/svg+xml"@
    } else if extension == "ico"@ {
        "image/vnd.microsoft.icon"@
    } else if extension == "json"@ {
        "application/json"@
    } else if extension == "pdf"@ {
        "application/pdf"@
    } else if extension == "zip"@ {
        "application/zip"@
    } else if extension == "mp4"@ {
        "video/mp4"@
    } else if extension == "ogv"@ {
        "video/ogg"@
    } else if extension == "webm"@ {
        "video/webm"@
    } else if extension == "ttf"@ {
        "font/ttf"@
    } else if extension == "otf"@ {
        "font/otf"@
    } else if extension == "woff"@ {
        "font/woff"@
    } else if extension == "woff2"@ {
        "font/woff2"@
    } else {
        "application/octet-stream"@
    }
}

/// The MIME type inferred from any extension is written as the media type registered for
/// that extension.
pub proof fn lemma_mime_type_registered(extension: Seq<char>)
    ensures
        mime_from_extension(extension).spec_text() == registered_media_type(extension),
{
}

} // verus!
