//! NDI sources. This build carries no NDI runtime: discovery finds nothing and
//! capture reports that NDI is not supported. Source ids (`ndi:` followed by
//! the URL-safe base64 of the NDI name) are encoded and decoded here.
use base64::Engine;
use vstd::prelude::*;
use vstd::string::StringSliceAdditionalSpecFns;
use vstd::utf8::*;

use crate::sources::CaptureError;
use crate::text::{strip_prefix, strip_prefix_seq};
use crate::types::{source_view, CaptureSource, CaptureSourceKind};

verus! {

broadcast use vstd::utf8::group_utf8_lib;

/// The message of NDI requests in a build without NDI.
pub open spec fn ndi_unsupported_message() -> Seq<char> {
    "NDI support was not compiled into this build"@
}

/// Whether the NDI runtime is available: never in this build.
pub fn is_available() -> (b: bool)
    ensures
        !b,
{
    false
}

/// The NDI sources found on the network: none in this build.
pub fn list_ndi_sources() -> (r: Result<Vec<CaptureSource>, CaptureError>)
    ensures
        r matches Ok(v) && v@.len() == 0,
{
    Ok(Vec::new())
}

/// A preview of an NDI source: not supported in this build.
pub fn capture_ndi_preview(_source_id: &str) -> (r: Result<String, CaptureError>)
    ensures
        r matches Err(CaptureError::Unsupported(m)) && m@ == ndi_unsupported_message(),
{
    Err(CaptureError::Unsupported(String::from_str("NDI support was not compiled into this build")))
}

/// Streaming an NDI source into a frame slot: not supported in this build.
pub fn capture_source_ndi_loop(_source: &CaptureSource) -> (r: Result<(), CaptureError>)
    ensures
        r matches Err(CaptureError::Unsupported(m)) && m@ == ndi_unsupported_message(),
{
    Err(CaptureError::Unsupported(String::from_str("NDI support was not compiled into this build")))
}

/// URL-safe base64 without padding of `bytes`.
pub uninterp spec fn base64_url_nopad(bytes: Seq<u8>) -> Seq<char>;

/// What URL-safe unpadded base64 decoding makes of `text` (`None`: invalid).
pub uninterp spec fn base64_url_nopad_decoded(text: Seq<char>) -> Option<Seq<u8>>;

/// `base64::engine::general_purpose::URL_SAFE_NO_PAD.encode`. The text is
/// named by `base64_url_nopad`, and decoding it with the same engine gives the
/// bytes back. Its length computation cannot overflow for any buffer that
/// exists (at most `isize::MAX` bytes), so it does not panic.
#[verifier::external_body]
fn base64_url_encode(bytes: &[u8]) -> (r: String)
    ensures
        r@ == base64_url_nopad(bytes@),
        base64_url_nopad_decoded(r@) == Some(bytes@),
{
    base64::engine::general_purpose::URL_SAFE_NO_PAD.encode(bytes)
}

/// `base64::engine::general_purpose::URL_SAFE_NO_PAD.decode`: the bytes, or
/// the text of the `DecodeError` (unstated) when `text` is not valid input.
#[verifier::external_body]
fn base64_url_decode(text: &str) -> (r: Result<Vec<u8>, String>)
    ensures
        match r {
            Ok(bytes) => base64_url_nopad_decoded(text@) == Some(bytes@),
            Err(_) => base64_url_nopad_decoded(text@) is None,
        },
{
    match base64::engine::general_purpose::URL_SAFE_NO_PAD.decode(text) {
        Ok(bytes) => Ok(bytes),
        Err(error) => Err(error.to_string()),
    }
}

/// `String::from_utf8`: the text when `bytes` is valid UTF-8 (as std
/// documents), else the text of the `FromUtf8Error` (unstated).
#[verifier::external_body]
fn string_from_utf8(bytes: Vec<u8>) -> (r: Result<String, String>)
    ensures
        r is Ok <==> valid_utf8(bytes@),
        r matches Ok(s) ==> s@ == decode_utf8(bytes@),
{
    match String::from_utf8(bytes) {
        Ok(s) => Ok(s),
        Err(error) => Err(error.to_string()),
    }
}

/// The source id of the NDI source named `name`.
pub open spec fn ndi_source_id_spec(name: Seq<char>) -> Seq<char> {
    "ndi:"@ + base64_url_nopad(encode_utf8(name))
}

/// `ndi:` followed by the URL-safe base64 of the name's UTF-8 bytes.
/// Decoding the id gives back the name.
pub fn ndi_source_id(name: &str) -> (id: String)
    ensures
        id@ == ndi_source_id_spec(name@),
        ndi_name_spec(id@) == Some(name@),
{
    let mut id = String::from_str("ndi:");
    let encoded = base64_url_encode(name.as_bytes());
    id.append(encoded.as_str());
    proof {
        let prefix = "ndi:"@;
        assert(id@.subrange(0, prefix.len() as int) == prefix);
        assert(id@.skip(prefix.len() as int) == encoded@);
        assert(name.spec_bytes() == encode_utf8(name@));
    }
    id
}

/// What `decode_ndi_source_id` makes of an id: the NDI name, or `None` when
/// the id lacks the prefix, is not base64 or does not decode to UTF-8.
pub open spec fn ndi_name_spec(source_id: Seq<char>) -> Option<Seq<char>> {
    match strip_prefix_seq(source_id, "ndi:"@) {
        None => None,
        Some(encoded) => match base64_url_nopad_decoded(encoded) {
            None => None,
            Some(bytes) => if valid_utf8(bytes) {
                Some(decode_utf8(bytes))
            } else {
                None
            },
        },
    }
}

/// The NDI name inside a source id; every failure is reported as
/// `SourceNotFound` (with the id itself when the prefix is missing).
pub fn decode_ndi_source_id(source_id: &str) -> (r: Result<String, CaptureError>)
    ensures
        match r {
            Ok(name) => ndi_name_spec(source_id@) == Some(name@),
            Err(e) => ndi_name_spec(source_id@) is None && e is SourceNotFound,
        },
        strip_prefix_seq(source_id@, "ndi:"@) is None ==> (r matches Err(CaptureError::SourceNotFound(m)) && m@ == source_id@),
{
    let encoded = match strip_prefix(source_id, "ndi:") {
        Some(e) => e,
        None => return Err(CaptureError::SourceNotFound(String::from_str(source_id))),
    };
    let bytes = match base64_url_decode(encoded) {
        Ok(b) => b,
        Err(message) => return Err(CaptureError::SourceNotFound(message)),
    };
    match string_from_utf8(bytes) {
        Ok(name) => Ok(name),
        Err(message) => Err(CaptureError::SourceNotFound(message)),
    }
}

/// The capture sources for the NDI names found on the network, in order.
pub fn ndi_sources_from_names(names: &Vec<String>) -> (r: Vec<CaptureSource>)
    ensures
        r@.len() == names@.len(),
        forall|i: int|
            0 <= i < names@.len() ==> source_view(&#[trigger] r@[i]) == (ndi_source_id_spec(names@[i]@), CaptureSourceKind::Ndi, names@[i]@),
{
    let mut out: Vec<CaptureSource> = Vec::new();
    let mut i: usize = 0;
    while i < names.len()
        invariant
            i <= names.len(),
            out@.len() == i,
            forall|k: int|
                0 <= k < i ==> source_view(&#[trigger] out@[k]) == (ndi_source_id_spec(names@[k]@), CaptureSourceKind::Ndi, names@[k]@),
        decreases names.len() - i,
    {
        let name = &names[i];
        out.push(CaptureSource { id: ndi_source_id(name.as_str()), kind: CaptureSourceKind::Ndi, label: name.clone() });
        i = i + 1;
    }
    out
}

} // verus!
