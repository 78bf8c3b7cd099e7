//! Style sheets of the web host: which asset paths may hold them and which bytes they may be.
use crate::asset_key::{is_web_asset_key, spec_is_web_asset_key};
use crate::codec::{base64_decoded, decode_base64};
use crate::text::{chars_of, ends_with, has_prefix, has_suffix, lower_seq, starts_with, to_lower};
use crate::web_assets::WebAssetMap;
use vstd::prelude::*;

verus! {

/// Largest style sheet, in bytes.
pub const MAX_CSS_BYTES: usize = 1048576;

/// Why a style sheet was refused.
#[derive(Clone, Copy, Debug, PartialEq, Eq, Structural)]
pub enum CssError {
    PathNotAuthorized,
    InvalidExtension,
    TooLarge,
    InvalidUtf8,
    NotFound,
    IoError,
}

impl CssError {
    /// The error code that the host reports.
    pub fn code(&self) -> (r: &'static str)
        ensures
            r@ == match self {
                CssError::PathNotAuthorized => "PATH_NOT_AUTHORIZED"@,
                CssError::InvalidExtension => "INVALID_EXTENSION"@,
                CssError::TooLarge => "TOO_LARGE"@,
                CssError::InvalidUtf8 => "INVALID_UTF8"@,
                CssError::NotFound => "NOT_FOUND"@,
                CssError::IoError => "IO_ERROR"@,
            },
    {
        match self {
            CssError::PathNotAuthorized => "PATH_NOT_AUTHORIZED",
            CssError::InvalidExtension => "INVALID_EXTENSION",
            CssError::TooLarge => "TOO_LARGE",
            CssError::InvalidUtf8 => "INVALID_UTF8",
            CssError::NotFound => "NOT_FOUND",
            CssError::IoError => "IO_ERROR",
        }
    }
}

/// Whether a path may hold a style sheet, and if not, why.
pub open spec fn spec_validate_path(path: Seq<char>) -> Result<(), CssError> {
    if !spec_is_web_asset_key(path) || !starts_with(path, "/assets/css/"@) {
        Err(CssError::PathNotAuthorized)
    } else if !ends_with(lower_seq(path), ".css"@) {
        Err(CssError::InvalidExtension)
    } else {
        Ok(())
    }
}

/// Style sheets live under `/assets/css/` and end in `.css`, in any case.
pub fn validate_path(path: &str) -> (r: Result<(), CssError>)
    ensures
        r == spec_validate_path(path@),
{
    let p = chars_of(path);
    if !is_web_asset_key(path) || !has_prefix(&p, &chars_of("/assets/css/")) {
        return Err(CssError::PathNotAuthorized);
    }
    if !has_suffix(&to_lower(&p), &chars_of(".css")) {
        return Err(CssError::InvalidExtension);
    }
    Ok(())
}

/// Calls `std::str::from_utf8` and reports whether the bytes are valid UTF-8.
#[verifier::external_body]
pub(crate) fn is_utf8(bytes: &[u8]) -> (r: bool)
    ensures
        r == vstd::utf8::valid_utf8(bytes@),
{
    std::str::from_utf8(bytes).is_ok()
}

/// Whether bytes at a path form an acceptable style sheet, and if not, why.
pub open spec fn spec_validate_css_bytes(path: Seq<char>, bytes: Seq<u8>) -> Result<(), CssError> {
    if spec_validate_path(path) is Err {
        spec_validate_path(path)
    } else if bytes.len() > MAX_CSS_BYTES {
        Err(CssError::TooLarge)
    } else if !vstd::utf8::valid_utf8(bytes) {
        Err(CssError::InvalidUtf8)
    } else {
        Ok(())
    }
}

/// A style sheet is a valid path and at most [`MAX_CSS_BYTES`] bytes of UTF-8.
pub fn validate_css_bytes(path: &str, bytes: &[u8]) -> (r: Result<(), CssError>)
    ensures
        r == spec_validate_css_bytes(path@, bytes@),
{
    match validate_path(path) {
        Err(e) => {
            return Err(e);
        },
        Ok(()) => {},
    }
    if bytes.len() > MAX_CSS_BYTES {
        return Err(CssError::TooLarge);
    }
    if !is_utf8(bytes) {
        return Err(CssError::InvalidUtf8);
    }
    Ok(())
}

/// The text of the style sheet stored at a path, and if there is none, why.
pub open spec fn spec_css_content(path: Seq<char>, assets: Map<Seq<char>, Seq<char>>) -> Result<
    Seq<u8>,
    CssError,
> {
    if spec_validate_path(path) is Err {
        Err(spec_validate_path(path)->Err_0)
    } else if !assets.contains_key(path) {
        Err(CssError::NotFound)
    } else {
        match base64_decoded(assets[path]) {
            None => Err(CssError::IoError),
            Some(bytes) => match spec_validate_css_bytes(path, bytes) {
                Err(e) => Err(e),
                Ok(()) => Ok(bytes),
            },
        }
    }
}

/// Calls `String::from_utf8` on bytes known to be valid UTF-8: the text decodes them.
#[verifier::external_body]
pub(crate) fn text_from_utf8(bytes: Vec<u8>) -> (r: String)
    requires
        vstd::utf8::valid_utf8(bytes@),
    ensures
        r@ == vstd::utf8::decode_utf8(bytes@),
{
    String::from_utf8(bytes).unwrap_or_default()
}

/// Reads the style sheet stored at a path.
pub fn css_content(path: &str, assets: &WebAssetMap) -> (r: Result<String, CssError>)
    ensures
        match (r, spec_css_content(path@, assets@)) {
            (Ok(t), Ok(b)) => t@ == vstd::utf8::decode_utf8(b),
            (Err(a), Err(b)) => a == b,
            _ => false,
        },
{
    match validate_path(path) {
        Err(e) => {
            return Err(e);
        },
        Ok(()) => {},
    }
    let encoded = match assets.get(path) {
        None => {
            return Err(CssError::NotFound);
        },
        Some(e) => e,
    };
    let bytes = match decode_base64(encoded.as_str()) {
        Err(_) => {
            return Err(CssError::IoError);
        },
        Ok(b) => b,
    };
    match validate_css_bytes(path, bytes.as_slice()) {
        Err(e) => {
            return Err(e);
        },
        Ok(()) => {},
    }
    Ok(text_from_utf8(bytes))
}

} // verus!
