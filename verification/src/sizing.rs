//! Region sizes for a store that is about to be created.
//!
//! Two planners live here. [`plan`] starts from a workload (a number of
//! records of one size); [`plan_for_capacity`] starts from the bytes that the
//! data region has to offer. Both report the journal's share of the store as
//! an exact fraction, which the caller turns into whatever number the engine
//! wants.

use cannyls::block::BlockSize;
use vstd::prelude::*;

verus! {

/// Journal bytes that one record needs at least.
pub const JOURNAL_BYTES_PER_RECORD: u64 = 256;

/// Bytes of capacity reserved for each byte of payload: the payload itself
/// and as much again as slack for fragmentation.
pub const CAPACITY_PER_PAYLOAD_BYTE: u64 = 2;

/// Numerator of the journal's default share of a store.
pub const DEFAULT_RATIO_NUMERATOR: u64 = 1;

/// Denominator of the journal's default share of a store.
pub const DEFAULT_RATIO_DENOMINATOR: u64 = 100;

/// Blocks of journal records that every store gets at least.
pub const MIN_JOURNAL_RECORD_BLOCKS: u64 = 2;

/// Journal record bytes provided for each block of the data region.
pub const JOURNAL_BYTES_PER_DATA_BLOCK: u64 = 20;

/// The engine's smallest block, in bytes.
pub const MIN_BLOCK_SIZE: u64 = 512;

/// An exact fraction. The denominator may be zero: a plan for records of no
/// bytes divides by a capacity of zero, and says so.
#[derive(Clone, Copy, Debug, PartialEq, Eq, Structural)]
pub struct Ratio {
    pub numerator: u64,
    pub denominator: u64,
}

/// Why no plan could be made.
#[derive(Clone, Copy, Debug, PartialEq, Eq, Structural)]
pub enum SizingError {
    /// A size on the way to the plan does not fit in 64 bits.
    ArithmeticOverflow,
}

/// The regions of a store, in bytes.
#[derive(Clone, Copy, Debug, PartialEq, Eq, Structural)]
pub struct SizingPlan {
    /// Bytes of the store's own header; zero where the engine carves it out
    /// of the total by itself.
    pub header_size: u64,
    /// Bytes reserved for lump payloads.
    pub data_region_size: u64,
    /// Bytes reserved for the journal, its header and its records.
    pub journal_region_size: u64,
    /// The journal's share of the total.
    pub journal_ratio: Ratio,
    /// Bytes of the whole store.
    pub total_size: u64,
}

impl SizingPlan {
    /// The journal does not ask for more than the whole store.
    pub open spec fn regions_fit(self) -> bool {
        self.journal_region_size <= self.total_size
    }

    /// The regions add up to the whole store.
    pub open spec fn adds_up(self) -> bool {
        self.total_size == self.header_size + self.data_region_size + self.journal_region_size
    }
}

/// Payload bytes of `record_count` records of `record_size` bytes.
pub open spec fn payload_of(record_count: u64, record_size: u64) -> int {
    record_count * record_size
}

/// Capacity reserved for that payload.
pub open spec fn capacity_of(record_count: u64, record_size: u64) -> int {
    CAPACITY_PER_PAYLOAD_BYTE * payload_of(record_count, record_size)
}

/// Journal bytes below which some record could not be journaled.
pub open spec fn journal_floor(record_count: u64) -> int {
    JOURNAL_BYTES_PER_RECORD * record_count
}

/// Every size on the way to the plan fits in 64 bits.
pub open spec fn workload_fits(record_count: u64, record_size: u64) -> bool {
    capacity_of(record_count, record_size) <= u64::MAX && journal_floor(record_count) <= u64::MAX
}

/// The default share of the capacity is less than the journal floor.
pub open spec fn ratio_is_raised(record_count: u64, record_size: u64) -> bool {
    capacity_of(record_count, record_size) * DEFAULT_RATIO_NUMERATOR < journal_floor(record_count)
        * DEFAULT_RATIO_DENOMINATOR
}

/// The plan for a workload whose sizes fit.
pub open spec fn planned(record_count: u64, record_size: u64) -> SizingPlan {
    let capacity = capacity_of(record_count, record_size);
    let floor = journal_floor(record_count);
    let journal = if ratio_is_raised(record_count, record_size) {
        floor
    } else {
        capacity * DEFAULT_RATIO_NUMERATOR / (DEFAULT_RATIO_DENOMINATOR as int)
    };
    SizingPlan {
        header_size: 0,
        data_region_size: if journal <= capacity {
            (capacity - journal) as u64
        } else {
            0
        },
        journal_region_size: journal as u64,
        journal_ratio: if ratio_is_raised(record_count, record_size) {
            Ratio { numerator: floor as u64, denominator: capacity as u64 }
        } else {
            Ratio { numerator: DEFAULT_RATIO_NUMERATOR, denominator: DEFAULT_RATIO_DENOMINATOR }
        },
        total_size: capacity as u64,
    }
}

/// Payload bytes of the workload, or `ArithmeticOverflow` where no plan can
/// be made for it.
pub fn total_payload(record_count: u64, record_size: u64) -> (result: Result<u64, SizingError>)
    ensures
        workload_fits(record_count, record_size) ==> result == Ok::<u64, SizingError>(
            payload_of(record_count, record_size) as u64,
        ),
        !workload_fits(record_count, record_size) ==> result == Err::<u64, SizingError>(
            SizingError::ArithmeticOverflow,
        ),
{
    let floor: Option<u64> = JOURNAL_BYTES_PER_RECORD.checked_mul(record_count);
    let payload: Option<u64> = record_count.checked_mul(record_size);
    match (payload, floor) {
        (Some(p), Some(_)) => {
            match CAPACITY_PER_PAYLOAD_BYTE.checked_mul(p) {
                Some(_) => Ok(p),
                None => Err(SizingError::ArithmeticOverflow),
            }
        },
        _ => {
            assert(!workload_fits(record_count, record_size)) by (nonlinear_arith)
                requires
                    record_count * record_size > u64::MAX || 256 * record_count > u64::MAX,
            ;
            Err(SizingError::ArithmeticOverflow)
        },
    }
}

/// Sizes a store for `record_count` records of `record_size` bytes.
///
/// The store gets twice the payload as capacity. The journal gets a
/// hundredth of it, unless that is less than 256 bytes for each record: then
/// its share is raised to exactly that floor over the capacity, whatever the
/// fraction comes to. With small records it comes to more than one, and with
/// records of no bytes its denominator is zero. Where the journal asks for
/// more than the capacity, no byte is left for data.
pub fn plan(record_count: u64, record_size: u64) -> (result: Result<SizingPlan, SizingError>)
    ensures
        workload_fits(record_count, record_size) ==> result == Ok::<SizingPlan, SizingError>(
            planned(record_count, record_size),
        ),
        !workload_fits(record_count, record_size) ==> result == Err::<SizingPlan, SizingError>(
            SizingError::ArithmeticOverflow,
        ),
        result matches Ok(p) ==> (record_count > 0 ==> p.journal_region_size
            >= JOURNAL_BYTES_PER_RECORD * record_count),
        result matches Ok(p) ==> (p.regions_fit() ==> p.total_size == p.data_region_size
            + p.journal_region_size),
        result matches Ok(p) ==> (p.regions_fit() <==> record_count == 0 || record_size
            >= JOURNAL_BYTES_PER_RECORD / CAPACITY_PER_PAYLOAD_BYTE),
{
    let payload: u64 = match total_payload(record_count, record_size) {
        Ok(p) => p,
        Err(e) => {
            return Err(e);
        },
    };
    let capacity: u64 = CAPACITY_PER_PAYLOAD_BYTE * payload;
    let floor: u64 = JOURNAL_BYTES_PER_RECORD * record_count;
    let default_share: u64 = capacity / DEFAULT_RATIO_DENOMINATOR * DEFAULT_RATIO_NUMERATOR;
    let raised: bool = default_share < floor;
    let journal: u64 = if raised {
        floor
    } else {
        default_share
    };
    let ratio: Ratio = if raised {
        Ratio { numerator: floor, denominator: capacity }
    } else {
        Ratio { numerator: DEFAULT_RATIO_NUMERATOR, denominator: DEFAULT_RATIO_DENOMINATOR }
    };
    let data: u64 = if journal <= capacity {
        capacity - journal
    } else {
        0
    };
    proof {
        lemma_regions_fit(record_count, record_size);
    }
    Ok(
        SizingPlan {
            header_size: 0,
            data_region_size: data,
            journal_region_size: journal,
            journal_ratio: ratio,
            total_size: capacity,
        },
    )
}

/// The journal of a planned workload fits in its capacity exactly when there
/// is no record, or each record has at least 128 bytes.
pub proof fn lemma_regions_fit(record_count: u64, record_size: u64)
    requires
        workload_fits(record_count, record_size),
    ensures
        planned(record_count, record_size).regions_fit() <==> record_count == 0 || record_size
            >= JOURNAL_BYTES_PER_RECORD / CAPACITY_PER_PAYLOAD_BYTE,
{
    let c: int = record_count as int;
    let s: int = record_size as int;
    assert(c > 0 && s >= 128 ==> 2 * (c * s) >= 256 * c) by (nonlinear_arith);
    assert(c > 0 && s < 128 ==> 2 * (c * s) < 256 * c) by (nonlinear_arith);
    assert(c == 0 ==> c * s == 0) by (nonlinear_arith);
}

/// The requested bytes, rounded up to whole blocks.
pub open spec fn aligned_data(requested: u64) -> int {
    (requested + MIN_BLOCK_SIZE - 1) / (MIN_BLOCK_SIZE as int) * MIN_BLOCK_SIZE
}

/// Bytes of journal records for a data region of `data` bytes: twenty for
/// each block of data, and two blocks at least.
pub open spec fn journal_records_for(data: int) -> int {
    let by_data = JOURNAL_BYTES_PER_DATA_BLOCK * (data / (MIN_BLOCK_SIZE as int));
    let least = MIN_JOURNAL_RECORD_BLOCKS * MIN_BLOCK_SIZE;
    if by_data >= least {
        by_data
    } else {
        least
    }
}

/// Bytes of the journal region: one block of header, then the records.
pub open spec fn journal_for(data: int) -> int {
    MIN_BLOCK_SIZE + journal_records_for(data)
}

/// Bytes of the whole store: data, journal, and one block of header.
pub open spec fn store_size_for(data: int) -> int {
    data + journal_for(data) + MIN_BLOCK_SIZE
}

/// The store for the request, rounded up and with journal and header, stays
/// in 64 bits.
pub open spec fn capacity_fits(requested: u64) -> bool {
    store_size_for(aligned_data(requested)) <= u64::MAX
}

/// The plan for a requested data capacity that fits.
pub open spec fn planned_for_capacity(requested: u64) -> SizingPlan {
    let data = aligned_data(requested);
    let journal = journal_for(data);
    let total = store_size_for(data);
    SizingPlan {
        header_size: MIN_BLOCK_SIZE,
        data_region_size: data as u64,
        journal_region_size: journal as u64,
        journal_ratio: if journal * DEFAULT_RATIO_DENOMINATOR > total * DEFAULT_RATIO_NUMERATOR {
            Ratio { numerator: journal as u64, denominator: total as u64 }
        } else {
            Ratio { numerator: DEFAULT_RATIO_NUMERATOR, denominator: DEFAULT_RATIO_DENOMINATOR }
        },
        total_size: total as u64,
    }
}

/// The engine's smallest block size, from `cannyls::block::BlockSize::min`
/// and `BlockSize::as_u16`. The engine pins it at 512 bytes; nothing here
/// proves that this crate's constant follows it.
#[verifier::external_body]
fn min_block_size() -> (size: u16)
    ensures
        size == MIN_BLOCK_SIZE,
{
    BlockSize::min().as_u16()
}

/// `cannyls::block::BlockSize::ceil_align` on the engine's smallest block:
/// the first multiple of 512 at or after `position`. The engine adds 512
/// and takes one off before it divides, so positions within 512 of the
/// 64-bit limit are kept away from it.
#[verifier::external_body]
fn ceil_align_to_min_block(position: u64) -> (aligned: u64)
    requires
        position + MIN_BLOCK_SIZE <= u64::MAX,
    ensures
        aligned == (position + MIN_BLOCK_SIZE - 1) / (MIN_BLOCK_SIZE as int) * MIN_BLOCK_SIZE,
{
    BlockSize::min().ceil_align(position)
}

/// Sizes a store whose data region offers at least `requested` bytes.
///
/// The data region is the request rounded up to whole blocks of the engine's
/// smallest size. The journal gets one block of header and twenty bytes of
/// records for each block of data, two blocks of records at least. The store
/// adds one block of header of its own. The journal's share is its size over
/// the total, and a hundredth at least.
pub fn plan_for_capacity(requested: u64) -> (result: Result<SizingPlan, SizingError>)
    ensures
        capacity_fits(requested) ==> result == Ok::<SizingPlan, SizingError>(
            planned_for_capacity(requested),
        ),
        !capacity_fits(requested) ==> result == Err::<SizingPlan, SizingError>(
            SizingError::ArithmeticOverflow,
        ),
        result matches Ok(p) ==> p.adds_up() && p.regions_fit() && p.data_region_size >= requested
            && p.data_region_size % MIN_BLOCK_SIZE == 0,
{
    let block: u64 = min_block_size() as u64;
    if requested > u64::MAX - block {
        return Err(SizingError::ArithmeticOverflow);
    }
    let data: u64 = ceil_align_to_min_block(requested);
    let by_data: u64 = JOURNAL_BYTES_PER_DATA_BLOCK * (data / block);
    let least: u64 = MIN_JOURNAL_RECORD_BLOCKS * block;
    let records: u64 = if by_data >= least {
        by_data
    } else {
        least
    };
    let journal: u64 = block + records;
    let total: u64 = match data.checked_add(journal) {
        Some(both) => match both.checked_add(block) {
            Some(t) => t,
            None => {
                return Err(SizingError::ArithmeticOverflow);
            },
        },
        None => {
            return Err(SizingError::ArithmeticOverflow);
        },
    };
    let above_default: bool = (journal as u128) * (DEFAULT_RATIO_DENOMINATOR as u128) > (
    total as u128) * (DEFAULT_RATIO_NUMERATOR as u128);
    let ratio: Ratio = if above_default {
        Ratio { numerator: journal, denominator: total }
    } else {
        Ratio { numerator: DEFAULT_RATIO_NUMERATOR, denominator: DEFAULT_RATIO_DENOMINATOR }
    };
    Ok(
        SizingPlan {
            header_size: block,
            data_region_size: data,
            journal_region_size: journal,
            journal_ratio: ratio,
            total_size: total,
        },
    )
}

} // verus!
