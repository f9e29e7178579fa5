//! The identifier that a 128-bit key carries.
//!
//! A key is read as sixteen bytes, most significant first. The first seven
//! name a node: a bucket, a segment and a member. A first byte of one marks
//! the content of a namespace; otherwise the eighth byte says which record
//! of the node the key stands for. The last eight bytes are a version or an
//! index where the record has one. Every key decodes: a tag that is not
//! known is reported, not refused.

use vstd::arithmetic::div_mod::lemma_basic_div;
use vstd::arithmetic::div_mod::lemma_div_denominator;
use vstd::prelude::*;

verus! {

/// Bytes of a key.
pub const KEY_SIZE: usize = 16;

/// Bytes of a node's address at the front of a key.
pub const LOCAL_NODE_SIZE: usize = 7;

/// Where the tag of a record stands.
pub const TAG_OFFSET: usize = 7;

/// Where the version or index begins.
pub const TAIL_OFFSET: usize = 8;

/// The first byte of a key that holds the content of a namespace.
pub const NAMESPACE_MARKER: u8 = 1;

/// The tag of a ballot.
pub const TAG_BALLOT: u8 = 0;

/// The tag of a log entry.
pub const TAG_LOG_ENTRY: u8 = 1;

/// The tag of the index of a log prefix.
pub const TAG_LOG_PREFIX_INDEX: u8 = 2;

/// The tag of a log prefix.
pub const TAG_LOG_PREFIX: u8 = 3;

/// Which record a key stands for.
#[derive(Clone, Copy, Debug, PartialEq, Eq)]
pub enum RecordKind {
    NamespaceContent,
    Ballot,
    LogEntry,
    LogPrefixIndex,
    LogPrefix,
    /// A tag that stands for no record known here.
    Unknown(u8),
}

/// The address of a member of a cluster.
#[derive(Clone, Copy, Debug, PartialEq, Eq)]
pub struct LocalNodeId {
    pub bucket_no: u32,
    pub segment_no: u16,
    pub member_no: u8,
}

/// What a key says of the record it stands for.
#[derive(Clone, Copy, Debug, PartialEq, Eq)]
pub struct DecodedIdentifier {
    pub kind: RecordKind,
    pub local_node: LocalNodeId,
    /// The version of a namespace's content, or the index of a log entry or
    /// of a log prefix; nothing for the other records.
    pub tail: Option<u64>,
}

/// 256 to the power of `digits`.
pub open spec fn exp256(digits: nat) -> nat
    decreases digits,
{
    if digits == 0 {
        1
    } else {
        256 * exp256((digits - 1) as nat)
    }
}

/// The number that `bytes` spell, most significant byte first.
pub open spec fn big_endian(bytes: Seq<u8>) -> nat
    decreases bytes.len(),
{
    if bytes.len() == 0 {
        0
    } else {
        256 * big_endian(bytes.drop_last()) + bytes.last() as nat
    }
}

/// Byte `at` of the sixteen that spell `key`, most significant byte first.
pub open spec fn key_byte(key: u128, at: int) -> u8 {
    ((key as nat / exp256((KEY_SIZE - 1 - at) as nat)) % 256) as u8
}

/// The sixteen bytes that spell `key`, most significant byte first.
pub open spec fn key_bytes(key: u128) -> Seq<u8> {
    Seq::new(KEY_SIZE as nat, |at: int| key_byte(key, at))
}

/// The node that the first seven of `bytes` name.
pub open spec fn local_node_of(bytes: Seq<u8>) -> LocalNodeId {
    LocalNodeId {
        bucket_no: big_endian(bytes.subrange(0, 4)) as u32,
        segment_no: big_endian(bytes.subrange(4, 6)) as u16,
        member_no: bytes[6],
    }
}

/// The seven bytes that name `node`.
pub open spec fn local_node_bytes(node: LocalNodeId) -> Seq<u8> {
    seq![
        (node.bucket_no / 0x100_0000) as u8,
        (node.bucket_no / 0x1_0000 % 256) as u8,
        (node.bucket_no / 0x100 % 256) as u8,
        (node.bucket_no % 256) as u8,
        (node.segment_no / 0x100) as u8,
        (node.segment_no % 256) as u8,
        node.member_no,
    ]
}

/// The record that a tag stands for.
pub open spec fn kind_of_tag(tag: u8) -> RecordKind {
    if tag == TAG_BALLOT {
        RecordKind::Ballot
    } else if tag == TAG_LOG_ENTRY {
        RecordKind::LogEntry
    } else if tag == TAG_LOG_PREFIX_INDEX {
        RecordKind::LogPrefixIndex
    } else if tag == TAG_LOG_PREFIX {
        RecordKind::LogPrefix
    } else {
        RecordKind::Unknown(tag)
    }
}

/// The record has a version or an index in the last eight bytes of its key.
pub open spec fn has_tail(kind: RecordKind) -> bool {
    kind is NamespaceContent || kind is LogEntry || kind is LogPrefix
}

/// What the sixteen bytes of a key say.
pub open spec fn decoded_bytes(id: Seq<u8>) -> DecodedIdentifier {
    let kind = if id[0] == NAMESPACE_MARKER {
        RecordKind::NamespaceContent
    } else {
        kind_of_tag(id[TAG_OFFSET as int])
    };
    DecodedIdentifier {
        kind,
        local_node: if id[0] == NAMESPACE_MARKER {
            local_node_of(id.update(0, 0))
        } else {
            local_node_of(id)
        },
        tail: if has_tail(kind) {
            Some(big_endian(id.subrange(TAIL_OFFSET as int, KEY_SIZE as int)) as u64)
        } else {
            None
        },
    }
}

/// What `key` says.
pub open spec fn decoded(key: u128) -> DecodedIdentifier {
    decoded_bytes(key_bytes(key))
}

/// A number spelled by bytes is below 256 to the power of their count.
pub proof fn lemma_big_endian_bound(bytes: Seq<u8>)
    ensures
        big_endian(bytes) < exp256(bytes.len()),
    decreases bytes.len(),
{
    if bytes.len() > 0 {
        lemma_big_endian_bound(bytes.drop_last());
    }
}

/// The leading bytes of a key spell the key without the bytes that follow.
proof fn lemma_key_front(key: u128, count: nat)
    requires
        count <= KEY_SIZE,
    ensures
        big_endian(key_bytes(key).take(count as int)) == key as nat / exp256(
            (KEY_SIZE - count) as nat,
        ),
    decreases count,
{
    let bytes = key_bytes(key);
    if count == 0 {
        assert(exp256(16) == 0x1_0000_0000_0000_0000_0000_0000_0000_0000) by {
            reveal_with_fuel(exp256, 17);
        }
        lemma_basic_div(key as int, exp256(16) as int);
    } else {
        let front = bytes.take(count as int);
        let unit = exp256((KEY_SIZE - count) as nat);
        lemma_key_front(key, (count - 1) as nat);
        lemma_exp256_monotonic(0, (KEY_SIZE - count) as nat);
        assert(front.drop_last() == bytes.take(count - 1));
        assert(front.last() == key_byte(key, count - 1));
        assert(exp256((KEY_SIZE - count + 1) as nat) == 256 * unit);
        lemma_div_denominator(key as int, unit as int, 256);
        assert(unit * 256 == 256 * unit) by (nonlinear_arith);
    }
}

/// The sixteen bytes of a key spell the key.
pub proof fn lemma_key_bytes_spell_key(key: u128)
    ensures
        key_bytes(key).len() == KEY_SIZE,
        big_endian(key_bytes(key)) == key,
{
    lemma_key_front(key, KEY_SIZE as nat);
    assert(key_bytes(key).take(KEY_SIZE as int) == key_bytes(key));
    let unit = exp256((KEY_SIZE - KEY_SIZE as nat) as nat);
    assert(unit == 1);
    assert(key as nat / unit == key) by (nonlinear_arith)
        requires
            unit == 1,
    ;
}

proof fn lemma_exp256_values()
    ensures
        exp256(0) == 1,
        exp256(1) == 0x100,
        exp256(2) == 0x1_0000,
        exp256(3) == 0x100_0000,
        exp256(4) == 0x1_0000_0000,
        exp256(8) == 0x1_0000_0000_0000_0000,
        exp256(15) == 0x1_0000_0000_0000_0000_0000_0000_0000_00,
{
    reveal_with_fuel(exp256, 16);
}

/// The sixteen bytes that spell `key`, most significant byte first.
pub fn key_to_bytes(key: u128) -> (bytes: Vec<u8>)
    ensures
        bytes@ == key_bytes(key),
{
    let mut bytes: Vec<u8> = Vec::new();
    let mut divisor: u128 = 0x1_0000_0000_0000_0000_0000_0000_0000_00;
    let mut at: usize = 0;
    proof {
        lemma_exp256_values();
    }
    while at < KEY_SIZE
        invariant
            at <= KEY_SIZE,
            bytes@.len() == at,
            at < KEY_SIZE ==> divisor == exp256((KEY_SIZE - 1 - at) as nat),
            divisor > 0,
            forall|i: int| 0 <= i < at ==> bytes@[i] == key_byte(key, i),
        decreases KEY_SIZE - at,
    {
        let byte: u8 = ((key / divisor) % 256) as u8;
        bytes.push(byte);
        at = at + 1;
        if at < KEY_SIZE {
            proof {
                assert(exp256((KEY_SIZE - at) as nat) == 256 * exp256(
                    (KEY_SIZE - 1 - at) as nat,
                ));
                lemma_exp256_monotonic(0, (KEY_SIZE - 1 - at) as nat);
            }
            divisor = divisor / 256;
        }
    }
    bytes
}

/// The number that the bytes `from..to` spell, most significant byte first.
fn read_big_endian(bytes: &[u8], from: usize, to: usize) -> (value: u64)
    requires
        from <= to <= bytes@.len(),
        to - from <= 8,
    ensures
        value == big_endian(bytes@.subrange(from as int, to as int)),
{
    let mut value: u64 = 0;
    let mut at: usize = from;
    while at < to
        invariant
            from <= at <= to <= bytes@.len(),
            to - from <= 8,
            value == big_endian(bytes@.subrange(from as int, at as int)),
        decreases to - at,
    {
        let ghost read = bytes@.subrange(from as int, at as int);
        let ghost next = bytes@.subrange(from as int, at + 1);
        proof {
            assert(next.drop_last() == read);
            assert(next.last() == bytes@[at as int]);
            assert(big_endian(next) == 256 * big_endian(read) + bytes@[at as int]);
            lemma_big_endian_bound(next);
            lemma_exp256_monotonic(next.len(), 8);
            lemma_exp256_values();
        }
        value = 256 * value + bytes[at] as u64;
        at = at + 1;
    }
    value
}

proof fn lemma_exp256_monotonic(fewer: nat, more: nat)
    requires
        fewer <= more,
    ensures
        exp256(fewer) <= exp256(more),
    decreases more,
{
    if fewer < more {
        lemma_exp256_monotonic(fewer, (more - 1) as nat);
    }
}

fn read_local_node(bytes: &[u8]) -> (node: LocalNodeId)
    requires
        bytes@.len() >= LOCAL_NODE_SIZE,
    ensures
        node == local_node_of(bytes@),
{
    proof {
        lemma_exp256_values();
        lemma_big_endian_bound(bytes@.subrange(0, 4));
        lemma_big_endian_bound(bytes@.subrange(4, 6));
    }
    let bucket: u64 = read_big_endian(bytes, 0, 4);
    let segment: u64 = read_big_endian(bytes, 4, 6);
    LocalNodeId { bucket_no: bucket as u32, segment_no: segment as u16, member_no: bytes[6] }
}

/// Reads the identifier that `key` carries. Every key has one.
pub fn decode(key: u128) -> (id: DecodedIdentifier)
    ensures
        id == decoded(key),
{
    let mut bytes: Vec<u8> = key_to_bytes(key);
    let tail: u64 = read_big_endian(bytes.as_slice(), TAIL_OFFSET, KEY_SIZE);
    if bytes[0] == NAMESPACE_MARKER {
        bytes.set(0, 0);
        let local_node: LocalNodeId = read_local_node(bytes.as_slice());
        assert(bytes@.subrange(TAIL_OFFSET as int, KEY_SIZE as int) == key_bytes(key).subrange(
            TAIL_OFFSET as int,
            KEY_SIZE as int,
        ));
        DecodedIdentifier { kind: RecordKind::NamespaceContent, local_node, tail: Some(tail) }
    } else {
        let local_node: LocalNodeId = read_local_node(bytes.as_slice());
        let tag: u8 = bytes[TAG_OFFSET];
        if tag == TAG_BALLOT {
            DecodedIdentifier { kind: RecordKind::Ballot, local_node, tail: None }
        } else if tag == TAG_LOG_ENTRY {
            DecodedIdentifier { kind: RecordKind::LogEntry, local_node, tail: Some(tail) }
        } else if tag == TAG_LOG_PREFIX_INDEX {
            DecodedIdentifier { kind: RecordKind::LogPrefixIndex, local_node, tail: None }
        } else if tag == TAG_LOG_PREFIX {
            DecodedIdentifier { kind: RecordKind::LogPrefix, local_node, tail: Some(tail) }
        } else {
            DecodedIdentifier { kind: RecordKind::Unknown(tag), local_node, tail: None }
        }
    }
}

/// Reads the node that seven bytes name.
pub fn decode_local_node(bytes: &[u8; 7]) -> (node: LocalNodeId)
    ensures
        node == local_node_of(bytes@),
{
    read_local_node(vstd::array::array_as_slice(bytes))
}

/// Writes the seven bytes that name `node`: the bucket in four bytes, the
/// segment in two, the member in one, each most significant byte first.
pub fn encode_local_node(node: LocalNodeId) -> (bytes: [u8; 7])
    ensures
        bytes@ == local_node_bytes(node),
        local_node_of(bytes@) == node,
{
    let bytes: [u8; 7] = [
        (node.bucket_no / 0x100_0000) as u8,
        (node.bucket_no / 0x1_0000 % 256) as u8,
        (node.bucket_no / 0x100 % 256) as u8,
        (node.bucket_no % 256) as u8,
        (node.segment_no / 0x100) as u8,
        (node.segment_no % 256) as u8,
        node.member_no,
    ];
    proof {
        assert(bytes@ =~= local_node_bytes(node));
        lemma_local_node_round_trip(node);
    }
    bytes
}

/// A sequence of four bytes spells what its bytes add up to.
proof fn lemma_big_endian_of_four(bytes: Seq<u8>)
    requires
        bytes.len() == 4,
    ensures
        big_endian(bytes) == 0x100_0000 * bytes[0] + 0x1_0000 * bytes[1] + 0x100 * bytes[2]
            + bytes[3],
{
    let three = bytes.drop_last();
    let two = three.drop_last();
    let one = two.drop_last();
    assert(big_endian(one.drop_last()) == 0);
    assert(big_endian(one) == bytes[0]);
    assert(big_endian(two) == 256 * big_endian(one) + bytes[1]);
    assert(big_endian(three) == 256 * big_endian(two) + bytes[2]);
}

/// A sequence of two bytes spells what its bytes add up to.
proof fn lemma_big_endian_of_two(bytes: Seq<u8>)
    requires
        bytes.len() == 2,
    ensures
        big_endian(bytes) == 0x100 * bytes[0] + bytes[1],
{
    let one = bytes.drop_last();
    assert(big_endian(one.drop_last()) == 0);
    assert(big_endian(one) == bytes[0]);
}

/// The bytes that name a node name that node and no other.
pub proof fn lemma_local_node_round_trip(node: LocalNodeId)
    ensures
        local_node_of(local_node_bytes(node)) == node,
{
    let bytes = local_node_bytes(node);
    let bucket = bytes.subrange(0, 4);
    let segment = bytes.subrange(4, 6);
    lemma_big_endian_of_four(bucket);
    lemma_big_endian_of_two(segment);
    assert(bucket[0] == bytes[0] && bucket[1] == bytes[1] && bucket[2] == bytes[2] && bucket[3]
        == bytes[3]);
    assert(segment[0] == bytes[4] && segment[1] == bytes[5]);
    lemma_join_four(node.bucket_no);
    lemma_join_two(node.segment_no);
    assert(big_endian(bucket) == node.bucket_no);
    assert(big_endian(segment) == node.segment_no);
}

/// A number of 32 bits is what its four bytes spell.
proof fn lemma_join_four(number: u32)
    ensures
        0x100_0000 * (number / 0x100_0000) + 0x1_0000 * (number / 0x1_0000 % 256) + 0x100 * (number
            / 0x100 % 256) + number % 256 == number,
        number / 0x100_0000 < 256,
{
}

/// A number of 16 bits is what its two bytes spell.
proof fn lemma_join_two(number: u16)
    ensures
        0x100 * (number / 0x100) + number % 256 == number,
        number / 0x100 < 256,
{
}

/// Four bytes can be read back from the number they spell.
proof fn lemma_split_four(b0: u8, b1: u8, b2: u8, b3: u8)
    ensures
        ({
            let spelled = 0x100_0000 * b0 + 0x1_0000 * b1 + 0x100 * b2 + b3;
            &&& spelled <= u32::MAX
            &&& spelled / 0x100_0000 == b0
            &&& spelled / 0x1_0000 % 256 == b1
            &&& spelled / 0x100 % 256 == b2
            &&& spelled % 256 == b3
        }),
{
}

/// Two bytes can be read back from the number they spell.
proof fn lemma_split_two(b0: u8, b1: u8)
    ensures
        ({
            let spelled = 0x100 * b0 + b1;
            &&& spelled <= u16::MAX
            &&& spelled / 0x100 == b0
            &&& spelled % 256 == b1
        }),
{
}

/// Seven bytes are the bytes that name the node they name.
pub proof fn lemma_local_node_bytes_round_trip(bytes: Seq<u8>)
    requires
        bytes.len() == LOCAL_NODE_SIZE,
    ensures
        local_node_bytes(local_node_of(bytes)) == bytes,
{
    let bucket = bytes.subrange(0, 4);
    let segment = bytes.subrange(4, 6);
    let node = local_node_of(bytes);
    lemma_big_endian_of_four(bucket);
    lemma_big_endian_of_two(segment);
    lemma_split_four(bytes[0], bytes[1], bytes[2], bytes[3]);
    lemma_split_two(bytes[4], bytes[5]);
    assert(bucket[0] == bytes[0] && bucket[1] == bytes[1] && bucket[2] == bytes[2] && bucket[3]
        == bytes[3]);
    assert(segment[0] == bytes[4] && segment[1] == bytes[5]);
    assert(node.bucket_no == 0x100_0000 * bytes[0] + 0x1_0000 * bytes[1] + 0x100 * bytes[2]
        + bytes[3]);
    assert(node.segment_no == 0x100 * bytes[4] + bytes[5]);
    let back = local_node_bytes(node);
    assert(back.len() == 7);
    assert(back[0] == bytes[0]);
    assert(back[1] == bytes[1]);
    assert(back[2] == bytes[2]);
    assert(back[3] == bytes[3]);
    assert(back[4] == bytes[4]);
    assert(back[5] == bytes[5]);
    assert(back[6] == bytes[6]);
    assert(back =~= bytes);
}

} // verus!
