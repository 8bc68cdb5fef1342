//! The tag that is written into the audio file: what each of its fields holds,
//! for each kind of audio.

use crate::format::{cover_mime_type, mime_type_of, AudioFormat};
use crate::metadata::{names_view, TrackFields, TrackMetadata};
use vstd::prelude::*;
use vstd::slice::slice_to_vec;
use vstd::string::StringExecFns;

verus! {

/// A front-cover picture.
#[derive(Clone, Debug, PartialEq, Eq)]
pub struct Picture {
    pub mime_type: String,
    pub data: Vec<u8>,
}

/// A front-cover picture, as values.
pub struct PictureParts {
    pub mime_type: Seq<char>,
    pub data: Seq<u8>,
}

impl View for Picture {
    type V = PictureParts;

    open spec fn view(&self) -> PictureParts {
        PictureParts { mime_type: self.mime_type@, data: self.data@ }
    }
}

/// The fields of a tag, for either kind of audio.
#[derive(Clone, Debug, PartialEq, Eq)]
pub enum OutputTag {
    /// An MP3 tag: the artists stand in one field, joined by `/`.
    Mp3 { title: String, album: String, artist: String, picture: Option<Picture> },
    /// A FLAC tag: the artist field has one value for each artist.
    Flac { title: String, album: String, artists: Vec<String>, picture: Option<Picture> },
}

/// The fields of a tag, as values.
pub enum TagParts {
    Mp3 { title: Seq<char>, album: Seq<char>, artist: Seq<char>, picture: Option<PictureParts> },
    Flac {
        title: Seq<char>,
        album: Seq<char>,
        artists: Seq<Seq<char>>,
        picture: Option<PictureParts>,
    },
}

/// The picture of a tag, as values.
pub open spec fn picture_view(picture: Option<Picture>) -> Option<PictureParts> {
    match picture {
        Some(p) => Some(p@),
        None => None,
    }
}

impl View for OutputTag {
    type V = TagParts;

    open spec fn view(&self) -> TagParts {
        match *self {
            OutputTag::Mp3 { title, album, artist, picture } => TagParts::Mp3 {
                title: title@,
                album: album@,
                artist: artist@,
                picture: picture_view(picture),
            },
            OutputTag::Flac { title, album, artists, picture } => TagParts::Flac {
                title: title@,
                album: album@,
                artists: names_view(artists@),
                picture: picture_view(picture),
            },
        }
    }
}

/// The names joined into one text, with `/` between each two.
pub open spec fn joined(names: Seq<Seq<char>>) -> Seq<char>
    decreases names.len(),
{
    if names.len() == 0 {
        Seq::empty()
    } else if names.len() == 1 {
        names[0]
    } else {
        joined(names.drop_last()) + seq!['/'] + names.last()
    }
}

/// The picture that a cover gives: none where the cover is empty.
pub open spec fn picture_of(cover: Seq<u8>) -> Option<PictureParts> {
    if cover.len() == 0 {
        None
    } else {
        Some(PictureParts { mime_type: mime_type_of(cover), data: cover })
    }
}

/// The tag for a track and its cover, for the given kind of audio.
pub open spec fn assembled(format: AudioFormat, track: TrackFields, cover: Seq<u8>) -> TagParts {
    match format {
        AudioFormat::Mp3 => TagParts::Mp3 {
            title: track.music_name,
            album: track.album,
            artist: joined(track.artists),
            picture: picture_of(cover),
        },
        AudioFormat::Flac => TagParts::Flac {
            title: track.music_name,
            album: track.album,
            artists: track.artists,
            picture: picture_of(cover),
        },
    }
}

/// Joins the names into one text, with `/` between each two.
pub fn join_artists(names: &Vec<String>) -> (text: String)
    ensures
        text@ == joined(names_view(names@)),
{
    let ghost all = names_view(names@);
    let mut text: String = String::new();
    let mut i: usize = 0;
    while i < names.len()
        invariant
            i <= names@.len(),
            all == names_view(names@),
            text@ == joined(all.take(i as int)),
        decreases names@.len() - i,
    {
        proof {
            reveal_strlit("/");
            let next = all.take(i + 1);
            assert(next.drop_last() =~= all.take(i as int));
            assert(next.last() == names@[i as int]@);
            assert("/"@ =~= seq!['/']);
        }
        if i > 0 {
            text.append("/");
        }
        text.append(names[i].as_str());
        i += 1;
    }
    assert(all.take(names@.len() as int) =~= all);
    text
}

/// Makes the picture of a tag from a cover.
pub fn make_picture(cover: &[u8]) -> (picture: Option<Picture>)
    ensures
        picture_view(picture) == picture_of(cover@),
{
    if cover.len() == 0 {
        None
    } else {
        Some(Picture { mime_type: cover_mime_type(cover).to_owned(), data: slice_to_vec(cover) })
    }
}

/// Copies the names.
fn copy_names(names: &Vec<String>) -> (copy: Vec<String>)
    ensures
        names_view(copy@) == names_view(names@),
{
    let mut copy: Vec<String> = Vec::with_capacity(names.len());
    let mut i: usize = 0;
    while i < names.len()
        invariant
            i <= names@.len(),
            copy@.len() == i,
            forall|k: int| 0 <= k < i ==> copy@[k]@ == names@[k]@,
        decreases names@.len() - i,
    {
        copy.push(names[i].clone());
        i += 1;
    }
    assert(names_view(copy@) =~= names_view(names@));
    copy
}

/// Makes the tag for a track and its cover, for the given kind of audio.
pub fn assemble_tag(format: AudioFormat, track: &TrackMetadata, cover: &[u8]) -> (tag: OutputTag)
    ensures
        tag@ == assembled(format, track@, cover@),
{
    match format {
        AudioFormat::Mp3 => OutputTag::Mp3 {
            title: track.music_name.clone(),
            album: track.album.clone(),
            artist: join_artists(&track.artists),
            picture: make_picture(cover),
        },
        AudioFormat::Flac => OutputTag::Flac {
            title: track.music_name.clone(),
            album: track.album.clone(),
            artists: copy_names(&track.artists),
            picture: make_picture(cover),
        },
    }
}

} // verus!
