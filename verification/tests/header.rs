use kanils::header::{read_version, write_major, write_minor, HeaderError, HeaderVersion};

fn store_front() -> Vec<u8> {
    // "lusf", a header size of 0x0022, major 1, minor 2, then more of the header
    vec![0x6c, 0x75, 0x73, 0x66, 0x00, 0x22, 0x00, 0x01, 0x00, 0x02, 0x02, 0x00, 0xaa, 0xbb]
}

#[test]
fn versions_are_read_big_endian() {
    assert_eq!(read_version(&store_front()), Ok(HeaderVersion { major: 1, minor: 2 }));
    let image = [0u8, 0, 0, 0, 0, 0, 0x12, 0x34, 0xab, 0xcd];
    assert_eq!(read_version(&image), Ok(HeaderVersion { major: 0x1234, minor: 0xabcd }));
}

#[test]
fn a_short_file_has_no_version() {
    assert_eq!(read_version(&[]), Err(HeaderError::TooShort));
    assert_eq!(read_version(&store_front()[..9]), Err(HeaderError::TooShort));
    assert!(read_version(&store_front()[..10]).is_ok());
}

#[test]
fn writing_the_major_version_round_trips() {
    let before = store_front();
    let mut image = before.clone();
    assert_eq!(write_major(&mut image, 0xbeef), Ok(()));
    assert_eq!(read_version(&image), Ok(HeaderVersion { major: 0xbeef, minor: 2 }));
    assert_eq!(image[6], 0xbe);
    assert_eq!(image[7], 0xef);
    assert_eq!(image.len(), before.len());
    for at in 0..before.len() {
        if at != 6 && at != 7 {
            assert_eq!(image[at], before[at]);
        }
    }
}

#[test]
fn writing_the_minor_version_round_trips() {
    let before = store_front();
    let mut image = before.clone();
    assert_eq!(write_minor(&mut image, 0x0100), Ok(()));
    assert_eq!(read_version(&image), Ok(HeaderVersion { major: 1, minor: 0x0100 }));
    assert_eq!(image[8], 0x01);
    assert_eq!(image[9], 0x00);
    for at in 0..before.len() {
        if at != 8 && at != 9 {
            assert_eq!(image[at], before[at]);
        }
    }
}

#[test]
fn every_major_version_round_trips() {
    for value in [0u16, 1, 255, 256, 257, 0x7fff, 0x8000, u16::MAX] {
        let mut image = store_front();
        write_major(&mut image, value).unwrap();
        assert_eq!(read_version(&image).unwrap(), HeaderVersion { major: value, minor: 2 });
        write_minor(&mut image, value).unwrap();
        assert_eq!(read_version(&image).unwrap(), HeaderVersion { major: value, minor: value });
    }
}

#[test]
fn a_short_file_is_left_alone() {
    let mut image = store_front()[..9].to_vec();
    let before = image.clone();
    assert_eq!(write_major(&mut image, 7), Err(HeaderError::TooShort));
    assert_eq!(image, before);
    assert_eq!(write_minor(&mut image, 7), Err(HeaderError::TooShort));
    assert_eq!(image, before);
}

#[test]
fn a_file_that_is_no_store_is_patched_all_the_same() {
    let mut image = vec![0xffu8; 10];
    assert_eq!(write_major(&mut image, 3), Ok(()));
    assert_eq!(image, vec![0xff, 0xff, 0xff, 0xff, 0xff, 0xff, 0x00, 0x03, 0xff, 0xff]);
}
