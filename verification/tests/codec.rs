use fileporter::frame::{check_exact_read, make_request, destination_path, valid_dir, valid_name, FrameError};
use fileporter::header::{build_header, decode, encode, HeaderData, HeaderError};
use fileporter::upload::build_upload_frame;

fn v1_header(name_len: u16, file_size: u64) -> HeaderData {
    HeaderData {
        magic: *b"FT01",
        version: 1,
        flags: 0,
        name_len,
        path_len: 0,
        file_size,
    }
}

fn v2_header(name_len: u16, path_len: u16, file_size: u64) -> HeaderData {
    HeaderData {
        magic: *b"FT01",
        version: 2,
        flags: 0,
        name_len,
        path_len,
        file_size,
    }
}

#[test]
fn it_parses_the_header() {
    let magic = *b"FT01";
    let flags: u8 = 0;
    let version: u8 = 2;
    let name_len: u16 = 25;
    let file_size: u64 = 1234567;
    let path_len: u16 = 30;

    let mut buf = [0u8; 18];
    buf[0..4].copy_from_slice(&magic);
    buf[4] = version;
    buf[5] = flags;
    buf[6..8].copy_from_slice(&name_len.to_be_bytes());
    buf[8..10].copy_from_slice(&path_len.to_be_bytes());
    buf[10..18].copy_from_slice(&file_size.to_be_bytes());

    let parsed = decode(&buf).unwrap();

    assert_eq!(
        parsed,
        HeaderData {
            magic,
            version,
            flags,
            name_len,
            file_size,
            path_len
        }
    );
}

#[test]
fn encode_decode_round_trip_v1() {
    let h = v1_header(5, 11);
    let bytes = encode(&h);
    assert_eq!(bytes.len(), 16);
    assert_eq!(decode(&bytes), Ok(h));
}

#[test]
fn encode_decode_round_trip_v2() {
    let h = v2_header(5, 3, 0xDEAD_BEEF_0102_0304);
    let bytes = encode(&h);
    assert_eq!(bytes.len(), 18);
    assert_eq!(decode(&bytes), Ok(h));
}

#[test]
fn encode_v1_exact_bytes() {
    let h = v1_header(5, 11);
    let bytes = encode(&h);
    assert_eq!(
        bytes,
        vec![70, 84, 48, 49, 1, 0, 0, 5, 0, 0, 0, 0, 0, 0, 0, 11]
    );
}

#[test]
fn decode_short_buffers_are_malformed() {
    // Shorter than the magic, shorter than the version byte, and shorter
    // than the length the declared version requires.
    for len in 0..16usize {
        let mut buf = vec![0u8; len];
        if len >= 4 {
            buf[0..4].copy_from_slice(b"FT01");
        }
        if len >= 5 {
            buf[4] = 1;
        }
        assert_eq!(decode(&buf), Err(HeaderError::MalformedHeader));
    }
    // A version-2 header needs 18 bytes; 17 is short.
    let mut buf = vec![0u8; 17];
    buf[0..4].copy_from_slice(b"FT01");
    buf[4] = 2;
    assert_eq!(decode(&buf), Err(HeaderError::MalformedHeader));
}

#[test]
fn decode_wrong_magic_regardless_of_rest() {
    let h = v1_header(5, 11);
    let mut bytes = encode(&h);
    bytes[0] = b'X';
    assert_eq!(decode(&bytes), Err(HeaderError::UnsupportedMagic));

    let garbage = [0xFFu8; 18];
    assert_eq!(decode(&garbage), Err(HeaderError::UnsupportedMagic));
}

#[test]
fn decode_unknown_version_is_rejected() {
    let h = v1_header(5, 11);
    let mut bytes = encode(&h);
    bytes[4] = 3;
    assert_eq!(decode(&bytes), Err(HeaderError::UnsupportedVersion));
    bytes[4] = 0;
    assert_eq!(decode(&bytes), Err(HeaderError::UnsupportedVersion));
}

#[test]
fn decode_nonzero_flags_is_malformed() {
    let h = v1_header(5, 11);
    let mut bytes = encode(&h);
    bytes[5] = 1;
    assert_eq!(decode(&bytes), Err(HeaderError::MalformedHeader));
}

#[test]
fn decode_oversized_lengths_are_malformed() {
    let mut buf = [0u8; 18];
    buf[0..4].copy_from_slice(b"FT01");
    buf[4] = 2;
    buf[5] = 0;
    buf[6..8].copy_from_slice(&u16::MAX.to_be_bytes());
    buf[8..10].copy_from_slice(&u16::MAX.to_be_bytes());
    buf[10..18].copy_from_slice(&1u64.to_be_bytes());
    assert_eq!(decode(&buf), Err(HeaderError::MalformedHeader));
}

#[test]
fn build_header_picks_version_from_path() {
    let h = build_header(&b"a.txt".to_vec(), 11, &Vec::new());
    assert_eq!(h.version, 1);
    assert_eq!(h.flags, 0);
    assert_eq!(h.name_len, 5);
    assert_eq!(h.path_len, 0);
    assert_eq!(h.file_size, 11);

    let h2 = build_header(&b"b.txt".to_vec(), 3, &b"out".to_vec());
    assert_eq!(h2.version, 2);
    assert_eq!(h2.name_len, 5);
    assert_eq!(h2.path_len, 3);
    assert_eq!(h2.file_size, 3);
}

#[test]
fn upload_frame_v1_exact_bytes() {
    let frame = build_upload_frame(&b"a.txt".to_vec(), &Vec::new(), 11);
    let mut expected = vec![70, 84, 48, 49, 1, 0, 0, 5, 0, 0, 0, 0, 0, 0, 0, 11];
    expected.extend_from_slice(b"a.txt");
    assert_eq!(frame, expected);
}

#[test]
fn upload_frame_v2_exact_bytes() {
    let frame = build_upload_frame(&b"b.txt".to_vec(), &b"out".to_vec(), 3);
    let mut expected = vec![70, 84, 48, 49, 2, 0, 0, 5, 0, 3, 0, 0, 0, 0, 0, 0, 0, 3];
    expected.extend_from_slice(b"b.txt");
    expected.extend_from_slice(b"out");
    assert_eq!(frame, expected);
}

#[test]
fn name_sanitization() {
    assert!(valid_name(&b"a.txt".to_vec()));
    assert!(valid_name(&b"...".to_vec()));
    assert!(!valid_name(&b"".to_vec()));
    assert!(!valid_name(&b"..".to_vec()));
    assert!(!valid_name(&b"a/b".to_vec()));
    assert!(!valid_name(&b"a\\b".to_vec()));
    assert!(!valid_name(&b"../etc".to_vec()));
}

#[test]
fn dir_sanitization() {
    assert!(valid_dir(&b"".to_vec()));
    assert!(valid_dir(&b"out".to_vec()));
    assert!(valid_dir(&b"a/b/c".to_vec()));
    assert!(valid_dir(&b"a..b".to_vec()));
    assert!(valid_dir(&b"..a".to_vec()));
    assert!(valid_dir(&b"a..".to_vec()));
    assert!(!valid_dir(&b"/abs".to_vec()));
    assert!(!valid_dir(&b"..".to_vec()));
    assert!(!valid_dir(&b"../up".to_vec()));
    assert!(!valid_dir(&b"a/../b".to_vec()));
    assert!(!valid_dir(&b"a/..".to_vec()));
    assert!(!valid_dir(&b"a\\b".to_vec()));
}

#[test]
fn make_request_rejects_unsafe_fields() {
    let h = v1_header(4, 9);
    let r = make_request(&h, b"a/.b".to_vec(), Vec::new());
    assert_eq!(r.err(), Some(FrameError::UnsafeName));

    let h2 = v2_header(5, 5, 9);
    let r2 = make_request(&h2, b"b.txt".to_vec(), b"../up".to_vec());
    assert_eq!(r2.err(), Some(FrameError::UnsafePath));
}

#[test]
fn make_request_builds_destination() {
    let h = v2_header(5, 3, 3);
    let req = make_request(&h, b"b.txt".to_vec(), b"out".to_vec()).unwrap();
    assert_eq!(req.destination_name, b"b.txt".to_vec());
    assert_eq!(req.destination_dir, Some(b"out".to_vec()));
    assert_eq!(req.declared_size, 3);
    assert_eq!(destination_path(&req), b"out/b.txt".to_vec());

    let h1 = v1_header(5, 11);
    let req1 = make_request(&h1, b"a.txt".to_vec(), Vec::new()).unwrap();
    assert_eq!(req1.destination_dir, None);
    assert_eq!(destination_path(&req1), b"a.txt".to_vec());
}

#[test]
fn exact_read_rule() {
    assert!(check_exact_read(18, 18).is_ok());
    assert_eq!(check_exact_read(18, 17), Err(FrameError::TruncatedFrame));
    assert_eq!(check_exact_read(5, 0), Err(FrameError::TruncatedFrame));
}
