use navipod::ui::art::{decode_art, ArtError};
use navipod::ui::picture::is_readable_picture;

const BASELINE: u8 = 0xc0;
const PROGRESSIVE: u8 = 0xc2;

fn segment(marker: u8, data: &[u8]) -> Vec<u8> {
    let length = data.len() + 2;
    let mut bytes = vec![0xff, marker, (length / 256) as u8, (length % 256) as u8];
    bytes.extend_from_slice(data);
    bytes
}

fn divisors(dc: u8) -> Vec<u8> {
    let mut data = vec![0; 65];
    data[1..].fill(1);
    data[1] = dc;
    segment(0xdb, &data)
}

fn wide_divisors(dc: u16) -> Vec<u8> {
    let mut data = vec![0; 129];
    data[0] = 16;
    data[1] = (dc / 256) as u8;
    data[2] = (dc % 256) as u8;
    for i in 1..64 {
        data[2 + 2 * i] = 1;
    }
    segment(0xdb, &data)
}

/// Two tables, DC and AC, of one symbol each, which a single zero bit stands for.
fn codes(category: u8) -> Vec<u8> {
    let mut data = vec![0; 36];
    data[1] = 1;
    data[17] = category;
    data[18] = 16;
    data[19] = 1;
    segment(0xc4, &data)
}

fn frame(marker: u8, width: u16, height: u16, factors: &[u8]) -> Vec<u8> {
    let mut data = vec![8, (height / 256) as u8, height as u8, (width / 256) as u8, width as u8];
    data.push(factors.len() as u8);
    for (i, factor) in factors.iter().enumerate() {
        data.extend_from_slice(&[i as u8 + 1, *factor, 0]);
    }
    segment(marker, &data)
}

fn scan(components: u8, last: u8) -> Vec<u8> {
    let mut data = vec![components];
    for i in 0..components {
        data.extend_from_slice(&[i + 1, 0]);
    }
    data.extend_from_slice(&[0, last, 0]);
    segment(0xda, &data)
}

fn jpeg(parts: &[Vec<u8>], coded: &[u8]) -> Vec<u8> {
    let mut bytes = vec![0xff, 0xd8];
    for part in parts {
        bytes.extend_from_slice(part);
    }
    bytes.extend_from_slice(coded);
    bytes.extend_from_slice(&[0xff, 0xd9]);
    bytes
}

/// A picture of one grey all over, whose differences are all zero.
fn plain(marker: u8, side: u16, factors: &[u8]) -> Vec<u8> {
    let last = if marker == PROGRESSIVE { 0 } else { 63 };
    jpeg(
        &[
            divisors(16),
            frame(marker, side, side, factors),
            codes(0),
            scan(factors.len() as u8, last),
        ],
        if marker == PROGRESSIVE { &[0] } else { &[0; 16] },
    )
}

fn adobe(transform: u8) -> Vec<u8> {
    segment(0xee, &[b'A', b'd', b'o', b'b', b'e', 0, 100, 0, 0, 0, 0, transform])
}

fn assert_grey(bytes: &[u8], side: u32) {
    assert!(is_readable_picture(bytes));
    let art = decode_art(bytes).unwrap();
    assert_eq!((art.width, art.height), (side, side));
    assert_eq!(art.raw, vec![128; (3 * side * side) as usize]);
}

fn assert_refused(bytes: &[u8]) {
    assert!(!is_readable_picture(bytes));
    assert!(matches!(decode_art(bytes), Err(ArtError::Unreadable)));
}

#[test]
fn usual_jpegs_are_readable() {
    assert_grey(&plain(BASELINE, 8, &[0x11]), 8);
    assert_grey(&plain(BASELINE, 16, &[0x22]), 16);
    assert_grey(&plain(BASELINE, 8, &[0x11, 0x11, 0x11]), 8);
    assert_grey(&plain(BASELINE, 16, &[0x21, 0x11, 0x11]), 16);
    assert_grey(&plain(BASELINE, 16, &[0x22, 0x11, 0x11]), 16);
    assert_grey(&plain(BASELINE, 24, &[0x22, 0x11, 0x11]), 24);
}

#[test]
fn usual_jpegs_in_several_passes_are_readable() {
    assert_grey(&plain(PROGRESSIVE, 8, &[0x11]), 8);
    assert_grey(&plain(PROGRESSIVE, 8, &[0x11, 0x11, 0x11]), 8);
    assert_grey(&plain(PROGRESSIVE, 16, &[0x22, 0x11, 0x11]), 16);
    let two_scans = jpeg(
        &[
            divisors(16),
            frame(PROGRESSIVE, 8, 8, &[0x11, 0x11, 0x11]),
            codes(0),
            scan(3, 0),
            vec![0],
            codes(0),
            scan(1, 0),
        ],
        &[0],
    );
    assert_grey(&two_scans, 8);
}

#[test]
fn jpegs_of_four_components_are_readable() {
    let bytes = plain(BASELINE, 8, &[0x11, 0x11, 0x11, 0x11]);
    assert!(is_readable_picture(&bytes));
    assert_eq!(decode_art(&bytes).unwrap().raw.len(), 192);
    assert!(is_readable_picture(&plain(BASELINE, 16, &[0x22, 0x11, 0x11, 0x22])));
    assert!(is_readable_picture(&plain(PROGRESSIVE, 8, &[0x11, 0x11, 0x11, 0x11])));
    assert_refused(&plain(PROGRESSIVE, 16, &[0x22, 0x11, 0x11, 0x22]));
}

#[test]
fn the_first_component_is_the_finest() {
    assert_refused(&plain(BASELINE, 16, &[0x11, 0x22, 0x11]));
    assert_refused(&plain(BASELINE, 16, &[0x21, 0x11, 0x12]));
    assert_refused(&plain(PROGRESSIVE, 16, &[0x11, 0x11, 0x21]));
    assert_refused(&plain(BASELINE, 16, &[0x22, 0x01, 0x11]));
    assert_refused(&plain(BASELINE, 8, &[0x11, 0x11]));
}

#[test]
fn a_picture_in_one_pass_has_one_scan() {
    let first = [divisors(16), frame(BASELINE, 8, 8, &[0x11, 0x11, 0x11]), codes(0)];
    let with = |parts: &[Vec<u8>], coded: &[u8]| {
        let mut all = first.to_vec();
        all.extend_from_slice(parts);
        jpeg(&all, coded)
    };
    assert_grey(&with(&[scan(3, 63)], &[3]), 8);
    assert_refused(&with(&[scan(1, 63)], &[3]));
    assert_refused(&with(&[scan(3, 63), vec![3], codes(0), scan(3, 63)], &[3]));
    assert_refused(&with(&[scan(3, 63)], &[3, 0xff, 0xfe, 0, 2]));
    assert!(is_readable_picture(&with(&[scan(3, 63)], &[3, 0xff, 0, 0xff, 0xff, 0xd0, 7])));
    assert!(is_readable_picture(&with(&[scan(3, 63)], &[3, 0xff, 0xd9, 0xff, 0xda])));
}

#[test]
fn dc_values_stay_within_their_integers() {
    let grey = |side: u16, table: Vec<u8>, category: u8| {
        jpeg(&[table, frame(BASELINE, side, 32, &[0x11]), codes(category), scan(1, 63)], &[0; 5])
    };
    assert_grey(&grey(32, wide_divisors(65535), 0), 32);
    assert_refused(&grey(40, wide_divisors(65535), 0));
    assert!(is_readable_picture(&grey(32, wide_divisors(4095), 15)));
    assert_refused(&grey(32, wide_divisors(4097), 15));
    assert_refused(&grey(32, divisors(1), 16));
}

#[test]
fn a_lone_component_is_grey() {
    let with = |before: Vec<u8>, after: Vec<u8>| {
        let head = [before, divisors(16), frame(BASELINE, 8, 8, &[0x11]), after, codes(0)];
        let mut parts = head.to_vec();
        parts.push(scan(1, 63));
        jpeg(&parts, &[0x3f])
    };
    let none: Vec<u8> = Vec::new();
    assert_grey(&with(adobe(2), none.clone()), 8);
    assert_refused(&with(none.clone(), adobe(2)));
    let sides = |marker: u8, side: u16, factor: u8| {
        let parts = [divisors(1), frame(marker, side, 8, &[factor]), codes(0), scan(1, 0)];
        is_readable_picture(&jpeg(&parts, &[0]))
    };
    assert!(sides(BASELINE, 65535, 0x11));
    assert!(sides(BASELINE, 65528, 0x22));
    assert!(!sides(BASELINE, 65529, 0x22));
    assert!(sides(PROGRESSIVE, 65535, 0x22));
}

#[test]
fn a_header_is_walked_by_its_segments() {
    let rest = [divisors(16), frame(BASELINE, 8, 8, &[0x11]), codes(0), scan(1, 63)];
    let with = |first: &[u8]| {
        let mut parts = vec![first.to_vec()];
        parts.extend_from_slice(&rest);
        jpeg(&parts, &[0x3f])
    };
    assert_grey(&with(&segment(0xe0, b"JFIF\0")), 8);
    assert_grey(&with(&[0xff, 0xff, 0xff, 0xfe, 0, 3, 65]), 8);
    assert_refused(&with(&segment(0xe0, b"JFIF")));
    assert_refused(&with(&[0xff, 0xfe, 0, 2, 7]));
    assert_refused(&with(&[0xff, 0]));
    assert_refused(&with(&segment(0xdd, &[0])));
    assert_refused(&with(&segment(0xd8, &[])));
    assert_refused(&with(&frame(BASELINE, 8, 8, &[0x11])));
    assert_refused(&with(&segment(0xc4, &[0; 16])));
    assert_refused(&with(&segment(0xdb, &[0; 64])));
    let whole = with(&[]);
    assert_refused(&whole[..whole.len() - 5]);
    assert_grey(&whole[..whole.len() - 1], 8);
}

fn crc(data: &[u8]) -> u32 {
    let mut c = u32::MAX;
    for byte in data {
        c ^= u32::from(*byte);
        for _ in 0..8 {
            c = if c & 1 == 1 { 0xedb8_8320 ^ (c >> 1) } else { c >> 1 };
        }
    }
    !c
}

fn chunk(kind: &[u8; 4], data: &[u8]) -> Vec<u8> {
    let mut named = kind.to_vec();
    named.extend_from_slice(data);
    let mut bytes = (data.len() as u32).to_be_bytes().to_vec();
    bytes.extend_from_slice(&named);
    bytes.extend_from_slice(&crc(&named).to_be_bytes());
    bytes
}

/// A picture of one pixel, the second colour of its palette.
fn one_pixel(palette: &[u8]) -> Vec<u8> {
    let mut bytes = b"\x89PNG\r\n\x1a\n".to_vec();
    bytes.extend(chunk(b"IHDR", &[0, 0, 0, 1, 0, 0, 0, 1, 8, 3, 0, 0, 0]));
    bytes.extend(chunk(b"PLTE", palette));
    bytes.extend(chunk(b"IDAT", &[0x78, 1, 1, 2, 0, 0xfd, 0xff, 0, 1, 0, 3, 0, 2]));
    bytes.extend(chunk(b"IEND", &[]));
    bytes
}

#[test]
fn a_palette_has_three_bytes_for_each_colour() {
    let bytes = one_pixel(&[1, 2, 3, 10, 20, 30]);
    assert!(is_readable_picture(&bytes));
    assert_eq!(decode_art(&bytes).unwrap().raw, [10, 20, 30]);
    assert_refused(&one_pixel(&[1, 2, 3, 10]));
    assert_refused(&one_pixel(&[1, 2, 3, 10, 20]));
}

#[test]
fn palettes_behind_the_image_data_do_not_count() {
    let mut bytes = one_pixel(&[1, 2, 3, 10, 20, 30]);
    bytes.extend(chunk(b"PLTE", &[1, 2, 3, 4]));
    assert!(is_readable_picture(&bytes));
    assert_eq!(decode_art(&bytes).unwrap().raw, [10, 20, 30]);
}

#[test]
fn bytes_that_no_decoder_takes_are_readable() {
    assert!(is_readable_picture(&[]));
    assert!(is_readable_picture(b"GIF89a"));
    assert!(is_readable_picture(b"<html>"));
    assert!(matches!(decode_art(b"GIF89a"), Err(ArtError::Decode(_))));
    assert!(is_readable_picture(b"\x89PNG\r\n\x1a\n"));
}
