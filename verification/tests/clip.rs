use cubevis::clip::clip;

fn bits_of(vals: &[f32]) -> Vec<u32> {
    vals.iter().map(|v| v.to_bits()).collect()
}

#[test]
fn clip_empty_returns_zero_pair() {
    let mut buf: Vec<u32> = Vec::new();
    let (lo, hi) = clip(&mut buf, 5, 95);
    assert_eq!(f32::from_bits(lo), 0.0);
    assert_eq!(f32::from_bits(hi), 0.0);
}

#[test]
fn clip_all_nan_returns_nan_pair() {
    let mut buf = bits_of(&[f32::NAN, f32::NAN, f32::NAN]);
    let (lo, hi) = clip(&mut buf, 5, 95);
    assert!(f32::from_bits(lo).is_nan());
    assert!(f32::from_bits(hi).is_nan());
}

#[test]
fn clip_exact_percentiles_ten_values() {
    let vals = [60.0f32, 20.0, 100.0, 40.0, 80.0, 10.0, 90.0, 30.0, 70.0, 50.0];
    let mut buf = bits_of(&vals);
    let (lo, hi) = clip(&mut buf, 20, 80);
    // rank floor(20/100 * 10) = 2 -> 30, rank floor(80/100 * 10) = 8 -> 90
    assert_eq!(f32::from_bits(lo), 30.0);
    assert_eq!(f32::from_bits(hi), 90.0);
}

#[test]
fn clip_full_range_returns_min_and_max() {
    let vals = [-1.0f32, 3.0, -2.0, 0.5];
    let mut buf = bits_of(&vals);
    let (lo, hi) = clip(&mut buf, 0, 100);
    assert_eq!(f32::from_bits(lo), -2.0);
    assert_eq!(f32::from_bits(hi), 3.0);
}

#[test]
fn clip_excludes_nan_from_statistic() {
    let vals = [f32::NAN, 5.0, f32::NAN, 1.0];
    let mut buf = bits_of(&vals);
    let (lo, hi) = clip(&mut buf, 5, 95);
    assert_eq!(f32::from_bits(lo), 1.0);
    assert_eq!(f32::from_bits(hi), 5.0);
}

#[test]
fn clip_low_le_high_and_members_without_nan() {
    let vals = [7.5f32, -3.25, 12.0, 0.0, 4.5, -8.0, 2.25];
    for p in [0i64, 10, 25, 50] {
        let mut buf = bits_of(&vals);
        let (lo, hi) = clip(&mut buf, p, 100 - p);
        let lo = f32::from_bits(lo);
        let hi = f32::from_bits(hi);
        assert!(lo <= hi);
        assert!(vals.contains(&lo));
        assert!(vals.contains(&hi));
    }
}

#[test]
fn clip_swap_tolerance() {
    let vals = [1.0f32, 9.0, 5.0, 3.0, 7.0];
    let mut a = bits_of(&vals);
    let mut b = bits_of(&vals);
    let ra = clip(&mut a, 80, 20);
    let rb = clip(&mut b, 20, 80);
    assert_eq!(ra, rb);
}

#[test]
fn clip_depends_only_on_multiset() {
    let mut a = bits_of(&[4.0f32, 1.0, 3.0, 2.0, 5.0]);
    let mut b = bits_of(&[5.0f32, 3.0, 1.0, 2.0, 4.0]);
    let ra = clip(&mut a, 10, 90);
    let rb = clip(&mut b, 10, 90);
    assert_eq!(ra, rb);
}

#[test]
fn clip_clamps_percentiles_outside_range() {
    let vals = [2.0f32, 1.0, 3.0];
    let mut a = bits_of(&vals);
    let mut b = bits_of(&vals);
    // -10 clamps to 0 and 150 clamps to 100
    let ra = clip(&mut a, -10, 150);
    let rb = clip(&mut b, 0, 100);
    assert_eq!(ra, rb);
}

#[test]
fn clip_preserves_buffer_contents_as_multiset() {
    let vals = [6.0f32, 2.0, f32::NAN, 4.0];
    let mut buf = bits_of(&vals);
    let _ = clip(&mut buf, 5, 95);
    assert_eq!(buf.len(), 4);
    let mut sorted: Vec<u32> = buf.clone();
    sorted.sort_unstable();
    let mut orig = bits_of(&vals);
    orig.sort_unstable();
    assert_eq!(sorted, orig);
}

#[test]
fn clip_single_value() {
    let mut buf = bits_of(&[42.5f32]);
    let (lo, hi) = clip(&mut buf, 5, 95);
    assert_eq!(f32::from_bits(lo), 42.5);
    assert_eq!(f32::from_bits(hi), 42.5);
}

#[test]
fn clip_orders_negative_zero_below_positive_zero() {
    let mut buf = vec![0.0f32.to_bits(), (-0.0f32).to_bits()];
    let (lo, hi) = clip(&mut buf, 0, 100);
    assert_eq!(lo, (-0.0f32).to_bits());
    assert_eq!(hi, 0.0f32.to_bits());
}
