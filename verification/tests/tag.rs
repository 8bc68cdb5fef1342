use ncmdump::format::AudioFormat;
use ncmdump::metadata::TrackMetadata;
use ncmdump::tag::{assemble_tag, join_artists, make_picture, OutputTag, Picture};

fn track(artists: Vec<&str>) -> TrackMetadata {
    TrackMetadata {
        music_name: "Test".to_string(),
        album: "Demo".to_string(),
        artists: artists.into_iter().map(|s| s.to_string()).collect(),
        bitrate: 320,
        duration: 10,
    }
}

#[test]
fn artists_are_joined_by_a_slash() {
    let names = |v: Vec<&str>| v.into_iter().map(|s| s.to_string()).collect::<Vec<String>>();
    assert_eq!(join_artists(&names(vec![])), "");
    assert_eq!(join_artists(&names(vec!["A"])), "A");
    assert_eq!(join_artists(&names(vec!["A", "B"])), "A/B");
    assert_eq!(join_artists(&names(vec!["A", "B", "C"])), "A/B/C");
    assert_eq!(join_artists(&names(vec!["", "B", ""])), "/B/");
    assert_eq!(join_artists(&names(vec!["\u{5468}", "B"])), "\u{5468}/B");
}

#[test]
fn empty_cover_gives_no_picture() {
    assert_eq!(make_picture(&[]), None);
}

#[test]
fn cover_gives_a_picture_of_its_kind() {
    let png = vec![0x89, 0x50, 0x4E, 0x47, 0x0D, 0x0A, 0x1A, 0x0A, 1, 2, 3];
    assert_eq!(
        make_picture(&png),
        Some(Picture { mime_type: "image/png".to_string(), data: png.clone() })
    );
    let jpeg = vec![0xFF, 0xD8, 0xFF, 0xE0, 1];
    assert_eq!(
        make_picture(&jpeg),
        Some(Picture { mime_type: "image/jpeg".to_string(), data: jpeg.clone() })
    );
}

#[test]
fn mp3_tag_has_one_artist_field() {
    assert_eq!(
        assemble_tag(AudioFormat::Mp3, &track(vec!["A", "B"]), &[]),
        OutputTag::Mp3 {
            title: "Test".to_string(),
            album: "Demo".to_string(),
            artist: "A/B".to_string(),
            picture: None,
        }
    );
}

#[test]
fn flac_tag_has_an_artist_field_for_each_artist() {
    let jpeg = vec![0xFF, 0xD8, 0xFF];
    assert_eq!(
        assemble_tag(AudioFormat::Flac, &track(vec!["A", "B"]), &jpeg),
        OutputTag::Flac {
            title: "Test".to_string(),
            album: "Demo".to_string(),
            artists: vec!["A".to_string(), "B".to_string()],
            picture: Some(Picture { mime_type: "image/jpeg".to_string(), data: jpeg.clone() }),
        }
    );
}

#[test]
fn tag_without_artists() {
    assert_eq!(
        assemble_tag(AudioFormat::Mp3, &track(vec![]), &[]),
        OutputTag::Mp3 {
            title: "Test".to_string(),
            album: "Demo".to_string(),
            artist: String::new(),
            picture: None,
        }
    );
    assert_eq!(
        assemble_tag(AudioFormat::Flac, &track(vec![]), &[]),
        OutputTag::Flac {
            title: "Test".to_string(),
            album: "Demo".to_string(),
            artists: vec![],
            picture: None,
        }
    );
}
