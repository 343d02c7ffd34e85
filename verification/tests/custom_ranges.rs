//! The configurable normalizer, over the default and custom partitions.

use normalize_css_z::normalizer::Normalizer;
use normalize_css_z::ranges::{len, RangesBuilder, ZRange};
use normalize_css_z::MANTISSA;

fn calc_f32(norm: &Normalizer, z: i32) -> Option<f32> {
    norm.calc(z).map(f32::from_bits)
}

#[test]
fn test_all() {
    let norm = Normalizer::new(None);

    let mut counter = 0;
    let mut prev = -1.0;

    for r in norm.ranges.iter() {
        for z in r.start..=r.end {
            let curr = calc_f32(&norm, z).unwrap();
            assert!(curr > prev);
            prev = curr;
            counter += 1;
        }
    }

    assert_eq!(counter, MANTISSA * 3 + 1);
    assert_eq!(prev, 1.0);
}

#[test]
fn test_custom1() {
    let builder = RangesBuilder::default();
    let norm = Normalizer::new(builder.build());

    let mut counter = 0;
    let mut prev = -1.0;

    for r in norm.ranges.iter() {
        for z in r.start..=r.end {
            let curr = calc_f32(&norm, z).unwrap();
            assert!(curr > prev);
            prev = curr;
            counter += 1;
        }
    }

    assert_eq!(counter, MANTISSA * 3 + 1);
    assert_eq!(counter, norm.ranges.iter().iter().map(len).sum::<i32>());
    assert_eq!(prev, 1.0);
}

#[test]
fn test_custom2() {
    let range = ZRange::new(0, 100);
    let builder = RangesBuilder::default().with_middle(range);
    let norm = Normalizer::new(builder.build());

    let mut counter = 0;
    let mut prev = -1.0;

    for r in norm.ranges.iter() {
        for z in r.start..=r.end {
            let curr = calc_f32(&norm, z).unwrap();
            assert!(curr >= prev);
            prev = curr;
            counter += 1;
        }
    }

    assert_eq!(counter, norm.ranges.iter().iter().map(len).sum::<i32>());
    assert_eq!(prev, 1.0);
}

#[test]
fn test_custom3() {
    let lower = ZRange::new(0, 100);
    let middle = ZRange::new(101, 200);
    let upper = ZRange::new(201, 300);

    let builder = RangesBuilder::default()
        .with_lower(lower)
        .with_middle(middle)
        .with_upper(upper);
    let norm = Normalizer::new(builder.build());

    assert_eq!(calc_f32(&norm, 0), Some(0.0));

    let mut counter = 0;
    let mut prev = -1.0;

    for r in norm.ranges.iter() {
        for z in r.start..=r.end {
            let curr = calc_f32(&norm, z).unwrap();
            assert!(curr > prev);
            prev = curr;
            counter += 1;
        }
    }

    assert_eq!(counter, norm.ranges.iter().iter().map(len).sum::<i32>());
    assert_eq!(prev, 1.0);
}

#[test]
fn test_custom4() {
    let lower = ZRange::new(1, 10);
    let middle = ZRange::new(11, 15);
    let upper = ZRange::new(16, 30);

    let builder = RangesBuilder::default()
        .with_lower(lower)
        .with_middle(middle)
        .with_upper(upper);
    let norm = Normalizer::new(builder.build());

    assert_eq!(calc_f32(&norm, 1), Some(0.0));

    let mut counter = 0;
    let mut prev = -1.0;

    for r in norm.ranges.iter() {
        for z in r.start..=r.end {
            let curr = calc_f32(&norm, z).unwrap();
            if curr <= prev {
                println!("shohei - curr {curr:?}, prev {prev:?}, z {z:?}");
            }
            assert!(curr > prev);
            prev = curr;
            counter += 1;
        }
    }

    assert_eq!(counter, norm.ranges.iter().iter().map(len).sum::<i32>());
    assert_eq!(prev, 1.0);
}
