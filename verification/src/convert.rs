//! The whole conversion: from the bytes of a container to the audio, its file
//! name and its tag.

use crate::container::{has_magic, parse_container, parsed, ContainerParts};
use crate::error::DumpError;
use crate::filename::{output_file_name, output_name};
use crate::format::{format_of, sniff_format, AudioFormat};
use crate::keybox::{build_key_box, key_box, recover_key, recovered_key};
use crate::metadata::{decode_metadata, metadata_decoded, TrackFields};
use crate::stream::{decrypt_payload, payload_decrypted};
use crate::tag::{assemble_tag, assembled, OutputTag, TagParts};
use vstd::prelude::*;

verus! {

/// What a conversion yields.
#[derive(Clone, Debug, PartialEq, Eq)]
pub struct Converted {
    /// The name of the file to write: the sanitized stem and the extension
    /// of the audio's kind.
    pub file_name: String,
    /// The kind of the audio.
    pub format: AudioFormat,
    /// The decrypted audio, exactly as long as the payload.
    pub audio: Vec<u8>,
    /// The tag to write; none where the container has no metadata.
    pub tag: Option<OutputTag>,
}

/// What a conversion yields, as values.
pub struct ConvertedParts {
    pub file_name: Seq<char>,
    pub format: AudioFormat,
    pub audio: Seq<u8>,
    pub tag: Option<TagParts>,
}

/// The tag of a conversion, as values.
pub open spec fn tag_view(tag: Option<OutputTag>) -> Option<TagParts> {
    match tag {
        Some(t) => Some(t@),
        None => None,
    }
}

impl View for Converted {
    type V = ConvertedParts;

    open spec fn view(&self) -> ConvertedParts {
        ConvertedParts {
            file_name: self.file_name@,
            format: self.format,
            audio: self.audio@,
            tag: tag_view(self.tag),
        }
    }
}

/// The tag for the metadata of a container, if it has any.
pub open spec fn tag_of(format: AudioFormat, track: Option<TrackFields>, cover: Seq<u8>) -> Option<
    TagParts,
> {
    match track {
        Some(t) => Some(assembled(format, t, cover)),
        None => None,
    }
}

/// What converting `input`, a container read from a file named `stem`, gives.
///
/// The container is split first, so an input without the magic bytes is
/// rejected before anything is decrypted. Then the key is recovered, the
/// metadata decoded, and the payload decrypted with the key box of the key.
pub open spec fn converted(input: Seq<u8>, stem: Seq<char>) -> Result<ConvertedParts, DumpError> {
    match parsed(input) {
        Err(e) => Err(e),
        Ok(parts) => match recovered_key(parts.key_blob) {
            Err(e) => Err(e),
            Ok(key) => match metadata_decoded(parts.meta_blob) {
                Err(e) => Err(e),
                Ok(track) => {
                    let audio = payload_decrypted(parts.audio, key_box(key));
                    let format = format_of(audio);
                    Ok(
                        ConvertedParts {
                            file_name: output_name(stem, format),
                            format,
                            audio,
                            tag: tag_of(format, track, parts.cover),
                        },
                    )
                },
            },
        },
    }
}

/// An input that does not start with the magic bytes is rejected for that,
/// whatever else it holds: nothing of it is decrypted or decoded.
pub proof fn lemma_magic_is_checked_first(input: Seq<u8>, stem: Seq<char>)
    requires
        !has_magic(input),
    ensures
        parsed(input) == Err::<ContainerParts, DumpError>(DumpError::InvalidMagic),
        converted(input, stem) == Err::<ConvertedParts, DumpError>(DumpError::InvalidMagic),
{
}

/// A container without metadata is converted like any other, and its
/// conversion has no tag: whether it succeeds depends on the key blob alone,
/// and the audio and the file name are what they are with metadata.
pub proof fn lemma_no_metadata_is_no_error(input: Seq<u8>, stem: Seq<char>)
    requires
        parsed(input) is Ok,
        parsed(input)->Ok_0.meta_blob.len() == 0,
    ensures
        metadata_decoded(parsed(input)->Ok_0.meta_blob) == Ok::<Option<TrackFields>, DumpError>(
            None,
        ),
        converted(input, stem) is Ok <==> recovered_key(parsed(input)->Ok_0.key_blob) is Ok,
        converted(input, stem) matches Ok(done) ==> done.tag is None && done.audio
            == payload_decrypted(
            parsed(input)->Ok_0.audio,
            key_box(recovered_key(parsed(input)->Ok_0.key_blob)->Ok_0),
        ) && done.audio.len() == parsed(input)->Ok_0.audio.len(),
{
}

/// Converts a container, given as the bytes of its file and the file's name
/// without its extension.
pub fn process_file(input: &[u8], stem: &str) -> (r: Result<Converted, DumpError>)
    ensures
        match r {
            Ok(done) => converted(input@, stem@) == Ok::<ConvertedParts, DumpError>(done@),
            Err(e) => converted(input@, stem@) == Err::<ConvertedParts, DumpError>(e),
        },
{
    let container = match parse_container(input) {
        Ok(container) => container,
        Err(e) => {
            return Err(e);
        },
    };
    let key: Vec<u8> = match recover_key(container.key_blob.as_slice()) {
        Ok(key) => key,
        Err(e) => {
            return Err(e);
        },
    };
    let key_box: [u8; 256] = build_key_box(key.as_slice());
    let track = match decode_metadata(container.meta_blob.as_slice()) {
        Ok(track) => track,
        Err(e) => {
            return Err(e);
        },
    };
    let audio: Vec<u8> = decrypt_payload(container.audio.as_slice(), &key_box);
    let format: AudioFormat = sniff_format(audio.as_slice());
    let tag: Option<OutputTag> = match &track {
        Some(t) => Some(assemble_tag(format, t, container.cover.as_slice())),
        None => None,
    };
    let file_name: String = output_file_name(stem, format);
    Ok(Converted { file_name, format, audio, tag })
}

} // verus!
