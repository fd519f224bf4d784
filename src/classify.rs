//! File-type sniffing: which audio files are accepted, and what a payload is.
use vstd::prelude::*;

use crate::paths::opt_text;

verus! {

/// The mime type that infer's signature matchers find for `bytes`, if any.
pub uninterp spec fn sniffed_mime(bytes: Seq<u8>) -> Option<Seq<char>>;

/// How many leading bytes of a file the signature matchers are shown.
pub const SNIFF_WINDOW: usize = 8192;

/// The leading bytes of `bytes` that are sniffed: at most `SNIFF_WINDOW`.
pub open spec fn sniff_window(bytes: Seq<u8>) -> Seq<u8> {
    if bytes.len() <= SNIFF_WINDOW {
        bytes
    } else {
        bytes.subrange(0, SNIFF_WINDOW as int)
    }
}

/// Whether `m` is one of the audio types that can carry a payload: MP3, WAV
/// or AIFF.
pub open spec fn is_allowed_audio_mime(m: Seq<char>) -> bool {
    m == "audio/mpeg"@ || m == "audio/x-wav"@ || m == "audio/x-aiff"@
}

/// The sniffed type, where it is one of the allowed audio types.
pub open spec fn allowed_audio_mime(sniffed: Option<Seq<char>>) -> Option<Seq<char>> {
    match sniffed {
        Some(m) => if is_allowed_audio_mime(m) {
            Some(m)
        } else {
            None
        },
        None => None,
    }
}

/// The mime type recorded for a payload: the sniffed one, or the generic
/// binary type where nothing matched.
pub open spec fn payload_mime(sniffed: Option<Seq<char>>) -> Seq<char> {
    match sniffed {
        Some(m) => m,
        None => "application/octet-stream"@,
    }
}

/// Relies on `infer::get` and `Type::mime_type`: the first of infer's
/// built-in signature matchers that accepts the bytes; it reads nothing else.
/// The zstd matcher recurses once per skippable-frame header, so the input
/// is kept to `SNIFF_WINDOW` bytes, as `infer::get_from_path` does.
#[verifier::external_body]
fn sniff_mime(buf: &[u8]) -> (r: Option<String>)
    requires
        buf@.len() <= SNIFF_WINDOW,
    ensures
        opt_text(r) == sniffed_mime(buf@),
{
    infer::get(buf).map(|kind| kind.mime_type().to_string())
}

/// Keeps a sniffed mime type only where it is MP3, WAV or AIFF.
pub fn supported_audio_mime(sniffed: Option<String>) -> (r: Option<String>)
    ensures
        opt_text(r) == allowed_audio_mime(opt_text(sniffed)),
{
    match sniffed {
        Some(m) => {
            if m == "audio/mpeg".to_owned() || m == "audio/x-wav".to_owned() || m
                == "audio/x-aiff".to_owned() {
                Some(m)
            } else {
                None
            }
        },
        None => None,
    }
}

/// The sniffed mime type, or `application/octet-stream` where there is none.
pub fn mime_or_default(sniffed: Option<String>) -> (r: String)
    ensures
        r@ == payload_mime(opt_text(sniffed)),
{
    match sniffed {
        Some(m) => m,
        None => "application/octet-stream".to_owned(),
    }
}

/// A copy of the leading `SNIFF_WINDOW` bytes of `bytes`, or of all of them
/// where there are fewer.
pub fn leading_window(bytes: &[u8]) -> (r: Vec<u8>)
    ensures
        r@ == sniff_window(bytes@),
{
    let n: usize = if bytes.len() <= SNIFF_WINDOW {
        bytes.len()
    } else {
        SNIFF_WINDOW
    };
    let mut window: Vec<u8> = Vec::new();
    let mut i: usize = 0;
    while i < n
        invariant
            n <= bytes@.len(),
            n == sniff_window(bytes@).len(),
            i <= n,
            window@ == bytes@.subrange(0, i as int),
        decreases n - i,
    {
        window.push(bytes[i]);
        i = i + 1;
        assert(window@ =~= bytes@.subrange(0, i as int));
    }
    assert(sniff_window(bytes@) =~= bytes@.subrange(0, n as int));
    window
}

/// The mime type of an audio file's leading bytes, where it is MP3, WAV or
/// AIFF; `None` for any other type, or where no signature matches.
pub fn is_supported_filetype(header: &[u8]) -> (r: Option<String>)
    ensures
        opt_text(r) == allowed_audio_mime(sniffed_mime(sniff_window(header@))),
{
    let window = leading_window(header);
    supported_audio_mime(sniff_mime(window.as_slice()))
}

/// The mime type to record for a payload: sniffed from its leading
/// `SNIFF_WINDOW` bytes only, with `application/octet-stream` where no
/// signature matches. A type that only bytes further in would reveal (some
/// OLE2 or OOXML documents) may be recorded as another type or as the
/// generic one.
pub fn payload_mime_type(data: &[u8]) -> (r: String)
    ensures
        r@ == payload_mime(sniffed_mime(sniff_window(data@))),
{
    let window = leading_window(data);
    mime_or_default(sniff_mime(window.as_slice()))
}

} // verus!
