//! The two version fields at the front of a store file.
//!
//! A store file begins with a magic number of four bytes and a header size
//! of two; the major and the minor version follow, two bytes each, most
//! significant byte first. The functions here read and replace those fields
//! in the leading bytes of a file that the caller has read. They check
//! nothing else: a file that is no store is patched all the same.

use byteorder::BigEndian;
use byteorder::ByteOrder;
use vstd::prelude::*;
use vstd::slice::slice_subrange;

verus! {

/// Bytes of the magic number that opens a store file.
pub const MAGIC_NUMBER_SIZE: usize = 4;

/// Bytes of the header size that follows the magic number.
pub const HEADER_SIZE_FIELD_SIZE: usize = 2;

/// Bytes of each version field.
pub const VERSION_FIELD_SIZE: usize = 2;

/// Where the major version begins: at byte 6.
pub const MAJOR_VERSION_OFFSET: usize = MAGIC_NUMBER_SIZE + HEADER_SIZE_FIELD_SIZE;

/// Where the minor version begins: at byte 8.
pub const MINOR_VERSION_OFFSET: usize = MAJOR_VERSION_OFFSET + VERSION_FIELD_SIZE;

/// Where the version fields end: the 10 bytes of a file that must be there.
pub const VERSION_FIELDS_END: usize = MINOR_VERSION_OFFSET + VERSION_FIELD_SIZE;

/// The version of the format that a store file claims.
#[derive(Clone, Copy, Debug, PartialEq, Eq, Structural)]
pub struct HeaderVersion {
    pub major: u16,
    pub minor: u16,
}

/// Why the version fields could not be read or replaced.
#[derive(Clone, Copy, Debug, PartialEq, Eq, Structural)]
pub enum HeaderError {
    /// The file ends before its version fields do.
    TooShort,
}

/// The number that two bytes spell, most significant byte first.
pub open spec fn be16(high: u8, low: u8) -> u16 {
    (high * 256 + low) as u16
}

/// The more significant byte of `value`.
pub open spec fn high_byte(value: u16) -> u8 {
    (value / 256) as u8
}

/// The less significant byte of `value`.
pub open spec fn low_byte(value: u16) -> u8 {
    (value % 256) as u8
}

/// The version that the leading bytes of a file spell.
pub open spec fn version_of(image: Seq<u8>) -> HeaderVersion
    recommends
        image.len() >= VERSION_FIELDS_END,
{
    HeaderVersion {
        major: be16(image[MAJOR_VERSION_OFFSET as int], image[MAJOR_VERSION_OFFSET + 1]),
        minor: be16(image[MINOR_VERSION_OFFSET as int], image[MINOR_VERSION_OFFSET + 1]),
    }
}

/// `image` with the two bytes at `offset` spelling `value`.
pub open spec fn with_field(image: Seq<u8>, offset: int, value: u16) -> Seq<u8> {
    image.update(offset, high_byte(value)).update(offset + 1, low_byte(value))
}

/// `image` with its major version replaced.
pub open spec fn with_major(image: Seq<u8>, value: u16) -> Seq<u8> {
    with_field(image, MAJOR_VERSION_OFFSET as int, value)
}

/// `image` with its minor version replaced.
pub open spec fn with_minor(image: Seq<u8>, value: u16) -> Seq<u8> {
    with_field(image, MINOR_VERSION_OFFSET as int, value)
}

/// `byteorder::BigEndian::read_u16`: the number that the first two bytes of
/// `field` spell, most significant byte first. It panics on fewer than two
/// bytes.
#[verifier::external_body]
fn read_be_u16(field: &[u8]) -> (value: u16)
    requires
        field@.len() >= 2,
    ensures
        value == be16(field@[0], field@[1]),
{
    BigEndian::read_u16(field)
}

/// `byteorder::BigEndian::write_u16` into two fresh bytes: the two bytes
/// that spell `value`, most significant byte first.
#[verifier::external_body]
fn be_bytes_of_u16(value: u16) -> (bytes: [u8; 2])
    ensures
        bytes@[0] == high_byte(value),
        bytes@[1] == low_byte(value),
{
    let mut bytes = [0u8; 2];
    BigEndian::write_u16(&mut bytes, value);
    bytes
}

/// Reads both versions from the leading bytes of a store file.
pub fn read_version(image: &[u8]) -> (result: Result<HeaderVersion, HeaderError>)
    ensures
        image@.len() >= VERSION_FIELDS_END ==> result == Ok::<HeaderVersion, HeaderError>(
            version_of(image@),
        ),
        image@.len() < VERSION_FIELDS_END ==> result == Err::<HeaderVersion, HeaderError>(
            HeaderError::TooShort,
        ),
{
    if image.len() < VERSION_FIELDS_END {
        return Err(HeaderError::TooShort);
    }
    let major: u16 = read_be_u16(slice_subrange(image, MAJOR_VERSION_OFFSET, MINOR_VERSION_OFFSET));
    let minor: u16 = read_be_u16(slice_subrange(image, MINOR_VERSION_OFFSET, VERSION_FIELDS_END));
    Ok(HeaderVersion { major, minor })
}

fn write_field(image: &mut Vec<u8>, offset: usize, value: u16)
    requires
        offset + 1 < old(image)@.len(),
    ensures
        final(image)@ == with_field(old(image)@, offset as int, value),
{
    let bytes: [u8; 2] = be_bytes_of_u16(value);
    let length: usize = image.len();
    assert(offset + 1 < length);
    image.set(offset, bytes[0]);
    image.set(offset + 1, bytes[1]);
}

/// Replaces the major version in the leading bytes of a store file.
///
/// Nothing is written unless both version fields are there. Then the two
/// bytes of the major version spell `value` and every other byte is as it
/// was, so that the minor version reads as before.
pub fn write_major(image: &mut Vec<u8>, value: u16) -> (result: Result<(), HeaderError>)
    ensures
        old(image)@.len() >= VERSION_FIELDS_END ==> result == Ok::<(), HeaderError>(())
            && final(image)@ == with_major(old(image)@, value),
        old(image)@.len() < VERSION_FIELDS_END ==> result == Err::<(), HeaderError>(
            HeaderError::TooShort,
        ) && final(image)@ == old(image)@,
        result is Ok ==> version_of(final(image)@) == (HeaderVersion {
            major: value,
            minor: version_of(old(image)@).minor,
        }),
        final(image)@.len() == old(image)@.len(),
        forall|at: int|
            0 <= at < old(image)@.len() && !(MAJOR_VERSION_OFFSET <= at < MINOR_VERSION_OFFSET)
                ==> final(image)@[at] == old(image)@[at],
{
    if image.len() < VERSION_FIELDS_END {
        return Err(HeaderError::TooShort);
    }
    write_field(image, MAJOR_VERSION_OFFSET, value);
    proof {
        lemma_write_major_round_trip(old(image)@, value);
    }
    Ok(())
}

/// Replaces the minor version in the leading bytes of a store file.
///
/// Nothing is written unless both version fields are there. Then the two
/// bytes of the minor version spell `value` and every other byte is as it
/// was, so that the major version reads as before.
pub fn write_minor(image: &mut Vec<u8>, value: u16) -> (result: Result<(), HeaderError>)
    ensures
        old(image)@.len() >= VERSION_FIELDS_END ==> result == Ok::<(), HeaderError>(())
            && final(image)@ == with_minor(old(image)@, value),
        old(image)@.len() < VERSION_FIELDS_END ==> result == Err::<(), HeaderError>(
            HeaderError::TooShort,
        ) && final(image)@ == old(image)@,
        result is Ok ==> version_of(final(image)@) == (HeaderVersion {
            major: version_of(old(image)@).major,
            minor: value,
        }),
        final(image)@.len() == old(image)@.len(),
        forall|at: int|
            0 <= at < old(image)@.len() && !(MINOR_VERSION_OFFSET <= at < VERSION_FIELDS_END)
                ==> final(image)@[at] == old(image)@[at],
{
    if image.len() < VERSION_FIELDS_END {
        return Err(HeaderError::TooShort);
    }
    write_field(image, MINOR_VERSION_OFFSET, value);
    proof {
        lemma_write_minor_round_trip(old(image)@, value);
    }
    Ok(())
}

/// Two bytes that spell a number spell no other.
pub proof fn lemma_be16_of_bytes(value: u16)
    ensures
        be16(high_byte(value), low_byte(value)) == value,
{
}

/// After the major version is replaced by `value`, the file reads as major
/// `value` with the minor version it had, and differs from what it was in
/// the two bytes of the major version at most.
pub proof fn lemma_write_major_round_trip(image: Seq<u8>, value: u16)
    requires
        image.len() >= VERSION_FIELDS_END,
    ensures
        version_of(with_major(image, value)) == (HeaderVersion {
            major: value,
            minor: version_of(image).minor,
        }),
        with_major(image, value).len() == image.len(),
        forall|at: int|
            0 <= at < image.len() && !(MAJOR_VERSION_OFFSET <= at < MINOR_VERSION_OFFSET)
                ==> with_major(image, value)[at] == image[at],
{
    lemma_be16_of_bytes(value);
}

/// After the minor version is replaced by `value`, the file reads as minor
/// `value` with the major version it had, and differs from what it was in
/// the two bytes of the minor version at most.
pub proof fn lemma_write_minor_round_trip(image: Seq<u8>, value: u16)
    requires
        image.len() >= VERSION_FIELDS_END,
    ensures
        version_of(with_minor(image, value)) == (HeaderVersion {
            major: version_of(image).major,
            minor: value,
        }),
        with_minor(image, value).len() == image.len(),
        forall|at: int|
            0 <= at < image.len() && !(MINOR_VERSION_OFFSET <= at < VERSION_FIELDS_END)
                ==> with_minor(image, value)[at] == image[at],
{
    lemma_be16_of_bytes(value);
}

} // verus!
