//! The metadata blob: from obfuscated bytes to the fields of a track.
//!
//! A blob that is not empty holds, under one layer each: an obfuscation by a
//! constant, a 22-byte header, a base64 encoding, an AES encryption under the
//! metadata key, a 6-byte header, and a record written as text.

use crate::cipher::{decrypt, decrypted, AES_MODIFY_KEY};
use crate::container::{deobfuscate, deobfuscated};
use crate::document::{parse_document, parsed_document, JsonDoc};
use crate::error::DumpError;
use std::str::Utf8Error;
use vstd::prelude::*;
use vstd::slice::slice_subrange;
use vstd::string::StringSliceAdditionalSpecFns;
use vstd::utf8::{decode_utf8, valid_utf8};

verus! {

/// The constant that every byte of the metadata blob is combined with.
pub const META_MASK: u8 = 0x63;

/// Length of the header in front of the encoded metadata.
pub const META_HEADER_LEN: usize = 22;

/// Length of the header in front of the decrypted record.
pub const RECORD_HEADER_LEN: usize = 6;

#[verifier::external_type_specification]
#[verifier::external_body]
pub struct ExDecodeError(base64::DecodeError);

#[verifier::external_type_specification]
#[verifier::external_body]
pub struct ExUtf8Error(std::str::Utf8Error);

/// What is known of a track.
#[derive(Clone, Debug, PartialEq, Eq)]
pub struct TrackMetadata {
    pub music_name: String,
    pub album: String,
    /// The artists' names, in the order of the record.
    pub artists: Vec<String>,
    pub bitrate: i64,
    pub duration: i64,
}

/// The fields of a track, as values.
pub struct TrackFields {
    pub music_name: Seq<char>,
    pub album: Seq<char>,
    pub artists: Seq<Seq<char>>,
    pub bitrate: i64,
    pub duration: i64,
}

/// The characters of each of `names`.
pub open spec fn names_view(names: Seq<String>) -> Seq<Seq<char>> {
    Seq::new(names.len(), |i: int| names[i]@)
}

impl View for TrackMetadata {
    type V = TrackFields;

    open spec fn view(&self) -> TrackFields {
        TrackFields {
            music_name: self.music_name@,
            album: self.album@,
            artists: names_view(self.artists@),
            bitrate: self.bitrate,
            duration: self.duration,
        }
    }
}

/// The name in one entry of the artist list: the first item of the entry
/// where that is a text, and the empty name otherwise.
pub open spec fn artist_name(entry: JsonDoc) -> Seq<char> {
    match entry.item(0) {
        Some(first) => match first.text() {
            Some(name) => name,
            None => Seq::empty(),
        },
        None => Seq::empty(),
    }
}

/// The artists' names that the member `artist` of a record gives: none where
/// the member is absent or null, one for each entry where it is a list.
/// Anything else is not an artist list.
pub open spec fn artist_names(member: Option<JsonDoc>) -> Option<Seq<Seq<char>>> {
    match member {
        None => Some(Seq::empty()),
        Some(JsonDoc::Null) => Some(Seq::empty()),
        Some(JsonDoc::List(entries)) => Some(
            Seq::new(entries@.len(), |i: int| artist_name(entries@[i])),
        ),
        Some(_) => None,
    }
}

/// The text of the member `key` of `doc`, where there is one.
pub open spec fn text_member(doc: JsonDoc, key: Seq<char>) -> Option<Seq<char>> {
    match doc.member(key) {
        Some(value) => value.text(),
        None => None,
    }
}

/// The integer of the member `key` of `doc`, where there is one.
pub open spec fn integer_member(doc: JsonDoc, key: Seq<char>) -> Option<i64> {
    match doc.member(key) {
        Some(value) => value.integer(),
        None => None,
    }
}

/// The track that a document describes: `musicName` and `album` must be
/// texts, `bitrate` and `duration` integers, and `artist` an artist list or
/// absent.
pub open spec fn track_of(doc: JsonDoc) -> Option<TrackFields> {
    if text_member(doc, "musicName"@) is Some && text_member(doc, "album"@) is Some
        && integer_member(doc, "bitrate"@) is Some && integer_member(doc, "duration"@) is Some
        && artist_names(doc.member("artist"@)) is Some {
        Some(
            TrackFields {
                music_name: text_member(doc, "musicName"@)->0,
                album: text_member(doc, "album"@)->0,
                artists: artist_names(doc.member("artist"@))->0,
                bitrate: integer_member(doc, "bitrate"@)->0,
                duration: integer_member(doc, "duration"@)->0,
            },
        )
    } else {
        None
    }
}

/// The bytes that the `base64` crate decodes `input` to in its standard
/// configuration, where it decodes it.
pub uninterp spec fn base64_decoded(input: Seq<u8>) -> Option<Seq<u8>>;

/// Calls `base64::decode`.
///
/// Trusted: whether the call succeeds and the bytes it yields depend on the
/// input alone. The call panics where the input's length plus 3 does not fit
/// in `usize`, which `requires` leaves out.
#[verifier::external_body]
fn base64_decode(input: &[u8]) -> (r: Result<Vec<u8>, base64::DecodeError>)
    requires
        input@.len() + 3 <= usize::MAX,
    ensures
        r is Ok <==> base64_decoded(input@) is Some,
        r matches Ok(bytes) ==> base64_decoded(input@) == Some(bytes@),
{
    base64::decode(input)
}

/// Calls `std::str::from_utf8`.
///
/// Trusted: the call succeeds exactly on valid UTF-8, and the text it yields
/// is made of the bytes it was given.
#[verifier::external_body]
fn text_from_utf8(bytes: &[u8]) -> (r: Result<&str, Utf8Error>)
    ensures
        r is Ok <==> valid_utf8(bytes@),
        r matches Ok(text) ==> text.spec_bytes() == bytes@,
{
    std::str::from_utf8(bytes)
}

/// The text of the member `key` of `doc`, if there is one.
fn get_text(doc: &JsonDoc, key: &str) -> (r: Option<String>)
    ensures
        match r {
            Some(s) => text_member(*doc, key@) == Some(s@),
            None => text_member(*doc, key@) is None,
        },
{
    match doc.get_member(key) {
        Some(value) => match value.as_text() {
            Some(s) => Some(s.clone()),
            None => None,
        },
        None => None,
    }
}

/// The integer of the member `key` of `doc`, if there is one.
fn get_integer(doc: &JsonDoc, key: &str) -> (r: Option<i64>)
    ensures
        r == integer_member(*doc, key@),
{
    match doc.get_member(key) {
        Some(value) => value.as_integer(),
        None => None,
    }
}

/// The name in one entry of the artist list.
fn get_artist_name(entry: &JsonDoc) -> (name: String)
    ensures
        name@ == artist_name(*entry),
{
    match entry.get_item(0) {
        Some(first) => match first.as_text() {
            Some(s) => s.clone(),
            None => String::new(),
        },
        None => String::new(),
    }
}

/// The artists' names that the member `artist` gives, if it is an artist
/// list or absent.
fn get_artist_names(member: Option<&JsonDoc>) -> (r: Option<Vec<String>>)
    ensures
        match r {
            Some(names) => artist_names(
                match member {
                    Some(m) => Some(*m),
                    None => None,
                },
            ) == Some(names_view(names@)),
            None => artist_names(
                match member {
                    Some(m) => Some(*m),
                    None => None,
                },
            ) is None,
        },
{
    match member {
        None => {
            let names: Vec<String> = Vec::new();
            assert(names_view(names@) =~= Seq::empty());
            Some(names)
        },
        Some(JsonDoc::Null) => {
            let names: Vec<String> = Vec::new();
            assert(names_view(names@) =~= Seq::empty());
            Some(names)
        },
        Some(JsonDoc::List(entries)) => {
            let mut names: Vec<String> = Vec::new();
            let mut i: usize = 0;
            while i < entries.len()
                invariant
                    i <= entries@.len(),
                    names@.len() == i,
                    forall|k: int| 0 <= k < i ==> names@[k]@ == artist_name(entries@[k]),
                decreases entries@.len() - i,
            {
                let name: String = get_artist_name(&entries[i]);
                names.push(name);
                i += 1;
            }
            assert(names_view(names@) =~= Seq::new(
                entries@.len(),
                |i: int| artist_name(entries@[i]),
            ));
            Some(names)
        },
        Some(_) => None,
    }
}

/// Reads the fields of a track from a document.
pub fn track_from_document(doc: &JsonDoc) -> (r: Result<TrackMetadata, DumpError>)
    ensures
        match r {
            Ok(track) => track_of(*doc) == Some(track@),
            Err(e) => track_of(*doc) is None && e == DumpError::MalformedMetadata,
        },
{
    let music_name: String = match get_text(doc, "musicName") {
        Some(s) => s,
        None => {
            return Err(DumpError::MalformedMetadata);
        },
    };
    let album: String = match get_text(doc, "album") {
        Some(s) => s,
        None => {
            return Err(DumpError::MalformedMetadata);
        },
    };
    let artists: Vec<String> = match get_artist_names(doc.get_member("artist")) {
        Some(names) => names,
        None => {
            return Err(DumpError::MalformedMetadata);
        },
    };
    let bitrate: i64 = match get_integer(doc, "bitrate") {
        Some(n) => n,
        None => {
            return Err(DumpError::MalformedMetadata);
        },
    };
    let duration: i64 = match get_integer(doc, "duration") {
        Some(n) => n,
        None => {
            return Err(DumpError::MalformedMetadata);
        },
    };
    Ok(TrackMetadata { music_name, album, artists, bitrate, duration })
}

/// What the decrypted metadata gives: the track that the text after the
/// 6-byte header describes.
pub open spec fn record_track(plain: Seq<u8>) -> Result<TrackFields, DumpError> {
    if plain.len() < 6 {
        Err(DumpError::MalformedMetadata)
    } else if !valid_utf8(plain.skip(6)) {
        Err(DumpError::Utf8DecodeError)
    } else {
        match parsed_document(decode_utf8(plain.skip(6))) {
            None => Err(DumpError::MalformedMetadata),
            Some(doc) => match track_of(doc) {
                None => Err(DumpError::MalformedMetadata),
                Some(track) => Ok(track),
            },
        }
    }
}

/// Reads the track from the decrypted metadata.
pub fn track_from_record(plain: &[u8]) -> (r: Result<TrackMetadata, DumpError>)
    ensures
        match r {
            Ok(track) => record_track(plain@) == Ok::<TrackFields, DumpError>(track@),
            Err(e) => record_track(plain@) == Err::<TrackFields, DumpError>(e),
        },
{
    broadcast use vstd::utf8::encode_utf8_decode_utf8;

    if plain.len() < RECORD_HEADER_LEN {
        return Err(DumpError::MalformedMetadata);
    }
    let body: &[u8] = slice_subrange(plain, RECORD_HEADER_LEN, plain.len());
    assert(body@ == plain@.skip(6));
    let text: &str = match text_from_utf8(body) {
        Ok(text) => text,
        Err(_) => {
            return Err(DumpError::Utf8DecodeError);
        },
    };
    assert(text@ == decode_utf8(body@));
    match parse_document(text) {
        Some(doc) => track_from_document(&doc),
        None => Err(DumpError::MalformedMetadata),
    }
}

/// What a metadata blob gives: nothing where it is empty, and otherwise the
/// track under its layers. Every failure under the layers but that of the
/// text's encoding makes the blob malformed.
pub open spec fn metadata_decoded(blob: Seq<u8>) -> Result<Option<TrackFields>, DumpError> {
    if blob.len() == 0 {
        Ok(None)
    } else if blob.len() < 22 {
        Err(DumpError::MalformedMetadata)
    } else {
        match base64_decoded(deobfuscated(blob, 0x63).skip(22)) {
            None => Err(DumpError::MalformedMetadata),
            Some(encrypted) => match decrypted(encrypted, AES_MODIFY_KEY@) {
                Err(_) => Err(DumpError::MalformedMetadata),
                Ok(plain) => match record_track(plain) {
                    Err(e) => Err(e),
                    Ok(track) => Ok(Some(track)),
                },
            },
        }
    }
}

/// Decodes the metadata blob of a container. An empty blob is a container
/// without metadata, which is no error.
pub fn decode_metadata(blob: &[u8]) -> (r: Result<Option<TrackMetadata>, DumpError>)
    ensures
        match r {
            Ok(Some(track)) => metadata_decoded(blob@) == Ok::<Option<TrackFields>, DumpError>(
                Some(track@),
            ),
            Ok(None) => metadata_decoded(blob@) == Ok::<Option<TrackFields>, DumpError>(None),
            Err(e) => metadata_decoded(blob@) == Err::<Option<TrackFields>, DumpError>(e),
        },
        blob@.len() == 0 ==> r == Ok::<Option<TrackMetadata>, DumpError>(None),
{
    if blob.len() == 0 {
        return Ok(None);
    }
    if blob.len() < META_HEADER_LEN {
        return Err(DumpError::MalformedMetadata);
    }
    let clear: Vec<u8> = deobfuscate(blob, META_MASK);
    let encoded: &[u8] = slice_subrange(clear.as_slice(), META_HEADER_LEN, clear.len());
    assert(encoded@ == deobfuscated(blob@, 0x63).skip(22));
    let encrypted: Vec<u8> = match base64_decode(encoded) {
        Ok(bytes) => bytes,
        Err(_) => {
            return Err(DumpError::MalformedMetadata);
        },
    };
    let plain: Vec<u8> = match decrypt(encrypted.as_slice(), &AES_MODIFY_KEY) {
        Ok(bytes) => bytes,
        Err(_) => {
            return Err(DumpError::MalformedMetadata);
        },
    };
    match track_from_record(plain.as_slice()) {
        Ok(track) => Ok(Some(track)),
        Err(e) => Err(e),
    }
}

} // verus!
