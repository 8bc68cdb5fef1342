//! Telling the kind of a decrypted audio stream, and of a cover image, by its
//! first bytes.

use vstd::prelude::*;

verus! {

/// The kind of an audio stream.
#[derive(Clone, Copy, Debug, PartialEq, Eq, Structural)]
pub enum AudioFormat {
    Mp3,
    Flac,
}

/// The four bytes a FLAC stream starts with: `fLaC`.
pub open spec fn flac_signature() -> Seq<u8> {
    seq![0x66u8, 0x4Cu8, 0x61u8, 0x43u8]
}

/// The eight bytes a PNG image starts with.
pub open spec fn png_signature() -> Seq<u8> {
    seq![0x89u8, 0x50u8, 0x4Eu8, 0x47u8, 0x0Du8, 0x0Au8, 0x1Au8, 0x0Au8]
}

/// `bytes` starts with `signature`.
pub open spec fn starts_with(bytes: Seq<u8>, signature: Seq<u8>) -> bool {
    bytes.len() >= signature.len() && bytes.take(signature.len() as int) == signature
}

/// The kind of the stream `audio`: FLAC where it starts with the FLAC
/// signature, MP3 otherwise.
pub open spec fn format_of(audio: Seq<u8>) -> AudioFormat {
    if starts_with(audio, flac_signature()) {
        AudioFormat::Flac
    } else {
        AudioFormat::Mp3
    }
}

/// The MIME type of the image `cover`: PNG where it starts with the PNG
/// signature, JPEG otherwise.
pub open spec fn mime_type_of(cover: Seq<u8>) -> Seq<char> {
    if starts_with(cover, png_signature()) {
        "image/png"@
    } else {
        "image/jpeg"@
    }
}

impl AudioFormat {
    /// The file extension of the kind, without a dot.
    pub open spec fn extension_spec(self) -> Seq<char> {
        match self {
            AudioFormat::Mp3 => "mp3"@,
            AudioFormat::Flac => "flac"@,
        }
    }

    /// The file extension of the kind, without a dot.
    pub fn extension(&self) -> (ext: &'static str)
        ensures
            ext@ == self.extension_spec(),
    {
        match self {
            AudioFormat::Mp3 => "mp3",
            AudioFormat::Flac => "flac",
        }
    }
}

/// Tells whether `bytes` starts with the bytes of `signature`.
fn has_signature(bytes: &[u8], signature: &[u8]) -> (found: bool)
    ensures
        found == starts_with(bytes@, signature@),
{
    let n: usize = signature.len();
    if bytes.len() < n {
        return false;
    }
    let mut i: usize = 0;
    while i < n
        invariant
            i <= n,
            n == signature@.len(),
            n <= bytes@.len(),
            forall|k: int| 0 <= k < i ==> bytes@[k] == signature@[k],
        decreases n - i,
    {
        if bytes[i] != signature[i] {
            assert(bytes@.take(n as int)[i as int] != signature@[i as int]);
            return false;
        }
        i += 1;
    }
    assert(bytes@.take(n as int) =~= signature@);
    true
}

/// Tells the kind of a decrypted audio stream.
pub fn sniff_format(audio: &[u8]) -> (format: AudioFormat)
    ensures
        format == format_of(audio@),
{
    let signature: [u8; 4] = [0x66, 0x4C, 0x61, 0x43];
    assert(signature@ =~= flac_signature());
    if has_signature(audio, signature.as_slice()) {
        AudioFormat::Flac
    } else {
        AudioFormat::Mp3
    }
}

/// Tells the MIME type of a cover image.
pub fn cover_mime_type(cover: &[u8]) -> (mime: &'static str)
    ensures
        mime@ == mime_type_of(cover@),
{
    let signature: [u8; 8] = [0x89, 0x50, 0x4E, 0x47, 0x0D, 0x0A, 0x1A, 0x0A];
    assert(signature@ =~= png_signature());
    if has_signature(cover, signature.as_slice()) {
        "image/png"
    } else {
        "image/jpeg"
    }
}

} // verus!
