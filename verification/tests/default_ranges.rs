//! The fixed default-range normalizer, exercised over its whole domain.

use normalize_css_z::{
    normalize, RANGE_LOWER_L, RANGE_LOWER_U, RANGE_MIDDLE_L, RANGE_MIDDLE_U, RANGE_UPPER_L,
    RANGE_UPPER_U,
};

fn normalize_f32(z: i32) -> Option<f32> {
    normalize(z).map(f32::from_bits)
}

#[test]
fn test_unsupported_z1() {
    assert!(normalize(RANGE_UPPER_L - 1).is_none());
}
#[test]
fn test_unsupported_z2() {
    assert!(normalize(RANGE_MIDDLE_U + 1).is_none());
}
#[test]
fn test_unsupported_z3() {
    assert!(normalize(RANGE_MIDDLE_L - 1).is_none());
}
#[test]
fn test_unsupported_z4() {
    assert!(normalize(RANGE_LOWER_L - 1).is_none());
}
#[test]
fn test_unsupported_z5() {
    assert!(normalize(RANGE_LOWER_U + 1).is_none());
}

#[test]
fn test_supported_z1() {
    assert!(normalize(RANGE_UPPER_U).is_some());
}
#[test]
fn test_supported_z2() {
    assert!(normalize(RANGE_UPPER_L).is_some());
}
#[test]
fn test_supported_z3() {
    assert!(normalize(RANGE_MIDDLE_L).is_some());
}
#[test]
fn test_supported_z4() {
    assert!(normalize(RANGE_MIDDLE_U).is_some());
}
#[test]
fn test_supported_z5() {
    assert!(normalize(RANGE_LOWER_L).is_some());
}
#[test]
fn test_supported_z6() {
    assert!(normalize(RANGE_LOWER_U).is_some());
}

fn run_normalize_upper() {
    let mut prev = -1.0;
    let mut count = 0;
    for i in RANGE_UPPER_L..=RANGE_UPPER_U {
        count += 1;
        let curr = normalize_f32(i).unwrap();
        assert!(curr > prev, "{i}: {} < {}", curr, prev);
        prev = curr;
    }
    println!("{count}");
}

fn run_normalize_middle() {
    let mut prev = -1.0;
    let mut count = 0;
    for i in RANGE_MIDDLE_L..=RANGE_MIDDLE_U {
        count += 1;
        let curr = normalize_f32(i).unwrap();
        assert!(curr > prev, "{i}: {} < {}", curr, prev);
        prev = curr;
    }
    println!("{count}");
}

fn run_normalize_lower() {
    let mut prev = -1.0;
    let mut count = 0;
    for i in RANGE_LOWER_L..=RANGE_LOWER_U {
        count += 1;
        let curr = normalize_f32(i).unwrap();
        assert!(curr > prev, "{i}: {} < {}", curr, prev);
        prev = curr;
    }
    println!("{count}");
}

fn run_continuity() {
    let mut prev = -1.0;
    let curr = normalize_f32(RANGE_LOWER_U).unwrap();
    assert!(curr > prev, "{}: {} > {}", RANGE_LOWER_U, curr, prev);
    println!("(LU): {curr} : {}", RANGE_LOWER_U);
    prev = curr;
    let curr = normalize_f32(RANGE_MIDDLE_L).unwrap();
    assert!(curr > prev, "{}: {} > {}", RANGE_MIDDLE_L, curr, prev);
    println!("(ML): {curr} : {}", RANGE_MIDDLE_L);
    prev = curr;
    let curr = normalize_f32(RANGE_MIDDLE_U).unwrap();
    assert!(curr > prev, "{}: {} > {}", RANGE_MIDDLE_U, curr, prev);
    println!("(MU): {curr} : {}", RANGE_MIDDLE_U);
    prev = curr;
    let curr = normalize_f32(RANGE_UPPER_L).unwrap();
    assert!(curr > prev, "{}: {} > {}", RANGE_UPPER_L, curr, prev);
    println!("(UL): {curr} : {}", RANGE_UPPER_L);
}

#[test]
fn test_normalize_upper() {
    run_normalize_upper();
}

#[test]
fn test_normalize_middle() {
    run_normalize_middle();
}

#[test]
fn test_normalize_lower() {
    run_normalize_lower();
}

#[test]
fn test_continuity() {
    run_continuity();
}

#[test]
fn test_normalize_all() {
    run_normalize_lower();
    run_normalize_middle();
    run_normalize_upper();
    run_continuity();
}
