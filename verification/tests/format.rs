use ncmdump::format::{cover_mime_type, sniff_format, AudioFormat};

#[test]
fn flac_is_known_by_its_signature() {
    assert_eq!(sniff_format(b"fLaC"), AudioFormat::Flac);
    assert_eq!(sniff_format(b"fLaC\x00\x00\x00\x22"), AudioFormat::Flac);
}

#[test]
fn everything_else_is_mp3() {
    assert_eq!(sniff_format(b""), AudioFormat::Mp3);
    assert_eq!(sniff_format(b"fLa"), AudioFormat::Mp3);
    assert_eq!(sniff_format(b"flac"), AudioFormat::Mp3);
    assert_eq!(sniff_format(b"FLAC"), AudioFormat::Mp3);
    assert_eq!(sniff_format(b"xfLaC"), AudioFormat::Mp3);
    assert_eq!(sniff_format(b"ID3\x03\x00"), AudioFormat::Mp3);
    assert_eq!(sniff_format(&[0xFF, 0xFB, 0x90, 0x00]), AudioFormat::Mp3);
    assert_eq!(sniff_format(b"OggS"), AudioFormat::Mp3);
}

#[test]
fn extensions() {
    assert_eq!(AudioFormat::Mp3.extension(), "mp3");
    assert_eq!(AudioFormat::Flac.extension(), "flac");
}

#[test]
fn png_is_known_by_its_signature() {
    let png = [0x89, 0x50, 0x4E, 0x47, 0x0D, 0x0A, 0x1A, 0x0A];
    assert_eq!(cover_mime_type(&png), "image/png");
    let mut longer = png.to_vec();
    longer.extend_from_slice(&[0, 0, 0, 13]);
    assert_eq!(cover_mime_type(&longer), "image/png");
}

#[test]
fn every_other_cover_is_jpeg() {
    assert_eq!(cover_mime_type(&[0xFF, 0xD8, 0xFF, 0xE0]), "image/jpeg");
    assert_eq!(cover_mime_type(&[]), "image/jpeg");
    assert_eq!(cover_mime_type(&[0x89, 0x50, 0x4E, 0x47, 0x0D, 0x0A, 0x1A]), "image/jpeg");
    assert_eq!(
        cover_mime_type(&[0x89, 0x50, 0x4E, 0x47, 0x0D, 0x0A, 0x1A, 0x0B]),
        "image/jpeg"
    );
    assert_eq!(cover_mime_type(b"GIF89a.."), "image/jpeg");
}
