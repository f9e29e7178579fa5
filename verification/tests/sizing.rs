use kanils::sizing::{plan, plan_for_capacity, total_payload, Ratio, SizingError, SizingPlan};

fn as_float(ratio: Ratio) -> f64 {
    ratio.numerator as f64 / ratio.denominator as f64
}

#[test]
fn small_records_raise_the_ratio_above_one() {
    assert_eq!(total_payload(10, 100), Ok(1000));
    let planned = plan(10, 100).unwrap();
    assert_eq!(planned.total_size, 2000);
    assert_eq!(planned.journal_region_size, 2560);
    assert_eq!(planned.journal_ratio, Ratio { numerator: 2560, denominator: 2000 });
    assert_eq!(as_float(planned.journal_ratio), 1.28);
    assert_eq!(planned.data_region_size, 0);
    assert_eq!(planned.header_size, 0);
}

#[test]
fn large_records_keep_the_default_ratio() {
    let planned = plan(1000, 20_000).unwrap();
    assert_eq!(
        planned,
        SizingPlan {
            header_size: 0,
            data_region_size: 39_600_000,
            journal_region_size: 400_000,
            journal_ratio: Ratio { numerator: 1, denominator: 100 },
            total_size: 40_000_000,
        }
    );
    assert_eq!(as_float(planned.journal_ratio), 0.01);
}

#[test]
fn no_records_leave_the_ratio_at_its_default() {
    let planned = plan(0, 4096).unwrap();
    assert_eq!(
        planned,
        SizingPlan {
            header_size: 0,
            data_region_size: 0,
            journal_region_size: 0,
            journal_ratio: Ratio { numerator: 1, denominator: 100 },
            total_size: 0,
        }
    );
    assert_eq!(total_payload(0, 4096), Ok(0));
}

#[test]
fn records_of_no_bytes_divide_by_zero() {
    let planned = plan(3, 0).unwrap();
    assert_eq!(planned.total_size, 0);
    assert_eq!(planned.journal_region_size, 768);
    assert_eq!(planned.journal_ratio, Ratio { numerator: 768, denominator: 0 });
    assert_eq!(planned.data_region_size, 0);
    assert!(as_float(planned.journal_ratio).is_infinite());
}

#[test]
fn the_ratio_is_raised_just_below_the_floor() {
    let at_floor = plan(1, 12_800).unwrap();
    assert_eq!(at_floor.total_size, 25_600);
    assert_eq!(at_floor.journal_region_size, 256);
    assert_eq!(at_floor.journal_ratio, Ratio { numerator: 1, denominator: 100 });
    assert_eq!(at_floor.data_region_size, 25_344);

    let below = plan(1, 12_799).unwrap();
    assert_eq!(below.total_size, 25_598);
    assert_eq!(below.journal_region_size, 256);
    assert_eq!(below.journal_ratio, Ratio { numerator: 256, denominator: 25_598 });
    assert_eq!(below.data_region_size, 25_342);
}

#[test]
fn the_journal_holds_every_record() {
    for count in [1u64, 2, 7, 100, 1000, 123_456] {
        for size in [0u64, 1, 100, 127, 128, 129, 4096, 12_799, 12_800, 12_801, 1 << 20] {
            let planned = plan(count, size).unwrap();
            assert!(planned.journal_region_size >= 256 * count);
            assert_eq!(planned.total_size, 2 * count * size);
        }
    }
}

#[test]
fn the_regions_add_up_where_the_journal_fits() {
    for count in [0u64, 1, 2, 7, 100, 1000, 123_456] {
        for size in [0u64, 1, 100, 127, 128, 129, 4096, 12_799, 12_800, 12_801, 1 << 20] {
            let planned = plan(count, size).unwrap();
            if count == 0 || size >= 128 {
                assert!(planned.journal_region_size <= planned.total_size);
                assert_eq!(
                    planned.total_size,
                    planned.data_region_size + planned.journal_region_size
                );
            } else {
                assert!(planned.journal_region_size > planned.total_size);
                assert_eq!(planned.data_region_size, 0);
            }
        }
    }
}

#[test]
fn sizes_that_do_not_fit_are_refused() {
    assert_eq!(plan(u64::MAX, 2), Err(SizingError::ArithmeticOverflow));
    assert_eq!(plan(1 << 32, 1 << 32), Err(SizingError::ArithmeticOverflow));
    assert_eq!(plan(1 << 31, 1 << 32), Err(SizingError::ArithmeticOverflow));
    assert_eq!(plan(1 << 56, 0), Err(SizingError::ArithmeticOverflow));
    assert_eq!(total_payload(1 << 56, 0), Err(SizingError::ArithmeticOverflow));
    assert_eq!(total_payload(1 << 31, 1 << 32), Err(SizingError::ArithmeticOverflow));
    assert!(plan((1 << 56) - 1, 0).is_ok());
    assert!(plan(1 << 31, (1 << 32) - 1).is_ok());
}

#[test]
fn a_requested_capacity_is_rounded_up_to_blocks() {
    assert_eq!(
        plan_for_capacity(1000),
        Ok(SizingPlan {
            header_size: 512,
            data_region_size: 1024,
            journal_region_size: 1536,
            journal_ratio: Ratio { numerator: 1536, denominator: 3072 },
            total_size: 3072,
        })
    );
    assert_eq!(
        plan_for_capacity(0),
        Ok(SizingPlan {
            header_size: 512,
            data_region_size: 0,
            journal_region_size: 1536,
            journal_ratio: Ratio { numerator: 1536, denominator: 2048 },
            total_size: 2048,
        })
    );
    assert_eq!(plan_for_capacity(512).unwrap().data_region_size, 512);
    assert_eq!(plan_for_capacity(513).unwrap().data_region_size, 1024);
}

#[test]
fn a_large_capacity_gets_twenty_journal_bytes_a_block() {
    let planned = plan_for_capacity(1 << 30).unwrap();
    assert_eq!(planned.data_region_size, 1 << 30);
    assert_eq!(planned.journal_region_size, 512 + 20 * (1 << 21));
    assert_eq!(planned.total_size, (1 << 30) + 512 + 20 * (1 << 21) + 512);
    assert_eq!(
        planned.journal_ratio,
        Ratio { numerator: planned.journal_region_size, denominator: planned.total_size }
    );
    // 52 blocks of data ask for 1040 bytes of records, 51 for the two blocks at least
    assert_eq!(plan_for_capacity(52 * 512).unwrap().journal_region_size, 512 + 1040);
    assert_eq!(plan_for_capacity(51 * 512).unwrap().journal_region_size, 512 + 1024);
}

#[test]
fn a_capacity_that_does_not_fit_is_refused() {
    assert_eq!(plan_for_capacity(u64::MAX), Err(SizingError::ArithmeticOverflow));
    assert_eq!(plan_for_capacity(u64::MAX - 511), Err(SizingError::ArithmeticOverflow));
    assert_eq!(plan_for_capacity(u64::MAX - 1023), Err(SizingError::ArithmeticOverflow));
    assert!(plan_for_capacity(1 << 62).is_ok());
}
