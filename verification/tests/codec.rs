use kanils::codec::{
    decode, decode_local_node, encode_local_node, key_to_bytes, DecodedIdentifier, LocalNodeId,
    RecordKind,
};

fn key_of(bytes: [u8; 16]) -> u128 {
    u128::from_be_bytes(bytes)
}

#[test]
fn namespace_content_carries_a_version() {
    let key = key_of([1, 0, 0, 0, 0, 0, 0, 0, 0, 0, 0, 0, 0, 0, 0, 0x2a]);
    let id = decode(key);
    assert_eq!(id.kind, RecordKind::NamespaceContent);
    assert_eq!(id.tail, Some(42));
    assert_eq!(id.local_node, LocalNodeId { bucket_no: 0, segment_no: 0, member_no: 0 });
}

#[test]
fn the_namespace_marker_is_not_part_of_the_bucket() {
    let key = key_of([1, 0x02, 0x03, 0x04, 0x05, 0x06, 0x07, 0x09, 0, 0, 0, 0, 0, 0, 0x01, 0x00]);
    assert_eq!(
        decode(key),
        DecodedIdentifier {
            kind: RecordKind::NamespaceContent,
            local_node: LocalNodeId { bucket_no: 0x0002_0304, segment_no: 0x0506, member_no: 7 },
            tail: Some(256),
        }
    );
}

#[test]
fn the_tag_selects_the_record() {
    let node = LocalNodeId { bucket_no: 0x00aa_bbcc, segment_no: 0x1122, member_no: 0x33 };
    let with_tag = |tag: u8| {
        key_of([0, 0xaa, 0xbb, 0xcc, 0x11, 0x22, 0x33, tag, 0, 0, 0, 0, 0, 0, 0x12, 0x34])
    };
    assert_eq!(
        decode(with_tag(0)),
        DecodedIdentifier { kind: RecordKind::Ballot, local_node: node, tail: None }
    );
    assert_eq!(
        decode(with_tag(1)),
        DecodedIdentifier { kind: RecordKind::LogEntry, local_node: node, tail: Some(0x1234) }
    );
    assert_eq!(
        decode(with_tag(2)),
        DecodedIdentifier { kind: RecordKind::LogPrefixIndex, local_node: node, tail: None }
    );
    assert_eq!(
        decode(with_tag(3)),
        DecodedIdentifier { kind: RecordKind::LogPrefix, local_node: node, tail: Some(0x1234) }
    );
    assert_eq!(
        decode(with_tag(4)),
        DecodedIdentifier { kind: RecordKind::Unknown(4), local_node: node, tail: None }
    );
    assert_eq!(
        decode(with_tag(0xff)),
        DecodedIdentifier { kind: RecordKind::Unknown(0xff), local_node: node, tail: None }
    );
}

#[test]
fn a_foreign_first_byte_stays_in_the_bucket() {
    let key = key_of([2, 0, 0, 1, 0, 0, 0, 1, 0xff, 0xff, 0xff, 0xff, 0xff, 0xff, 0xff, 0xff]);
    assert_eq!(
        decode(key),
        DecodedIdentifier {
            kind: RecordKind::LogEntry,
            local_node: LocalNodeId { bucket_no: 0x0200_0001, segment_no: 0, member_no: 0 },
            tail: Some(u64::MAX),
        }
    );
}

#[test]
fn every_key_decodes_and_decodes_the_same_twice() {
    for key in [0u128, 1, u128::MAX, 1 << 120, (1 << 120) - 1, 0x0123_4567_89ab_cdef << 64] {
        assert_eq!(decode(key), decode(key));
    }
    assert_eq!(
        decode(0),
        DecodedIdentifier {
            kind: RecordKind::Ballot,
            local_node: LocalNodeId { bucket_no: 0, segment_no: 0, member_no: 0 },
            tail: None,
        }
    );
    assert_eq!(
        decode(u128::MAX),
        DecodedIdentifier {
            kind: RecordKind::Unknown(0xff),
            local_node: LocalNodeId {
                bucket_no: u32::MAX,
                segment_no: u16::MAX,
                member_no: u8::MAX
            },
            tail: None,
        }
    );
}

#[test]
fn a_key_is_spelled_most_significant_byte_first() {
    for key in [0u128, 1, 0x2a, u128::MAX, 0x0102_0304_0506_0708_090a_0b0c_0d0e_0f10] {
        assert_eq!(key_to_bytes(key), key.to_be_bytes().to_vec());
    }
}

#[test]
fn a_local_node_round_trips() {
    let node = LocalNodeId { bucket_no: 0x0a0b_0c0d, segment_no: 0x0e0f, member_no: 0x10 };
    let bytes = encode_local_node(node);
    assert_eq!(bytes, [0x0a, 0x0b, 0x0c, 0x0d, 0x0e, 0x0f, 0x10]);
    assert_eq!(decode_local_node(&bytes), node);
    let raw = [0xff, 0x00, 0x80, 0x01, 0x7f, 0xfe, 0x00];
    assert_eq!(encode_local_node(decode_local_node(&raw)), raw);
    assert_eq!(
        decode_local_node(&raw),
        LocalNodeId { bucket_no: 0xff00_8001, segment_no: 0x7ffe, member_no: 0 }
    );
}
