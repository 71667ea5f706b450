use cubevis::ingest::{ingest, CardVal, Header, IngestError};

fn cube_header(n1: i64, n2: i64, n3: i64, n4: Option<i64>, bitpix: i64) -> Header {
    Header {
        naxis1: Some(CardVal::Int(n1)),
        naxis2: Some(CardVal::Int(n2)),
        naxis3: Some(CardVal::Int(n3)),
        naxis4: n4.map(CardVal::Int),
        bitpix: Some(CardVal::Int(bitpix)),
        datamin: None,
        datamax: None,
    }
}

fn be_sample_bytes(vals: &[f32]) -> Vec<u8> {
    let mut out = Vec::new();
    for v in vals {
        out.extend_from_slice(&v.to_bits().to_be_bytes());
    }
    out
}

#[test]
fn degenerate_third_axis_uses_fourth() {
    // NAXIS1=4, NAXIS2=3, NAXIS3=1, NAXIS4=7 yields a 4 x 3 x 7 cube
    let header = cube_header(4, 3, 1, Some(7), -32);
    let data = be_sample_bytes(&vec![0.5f32; 4 * 3 * 7]);
    let cube = ingest(&header, &data).unwrap();
    assert_eq!((cube.width, cube.height, cube.depth), (4, 3, 7));
}

#[test]
fn plain_third_axis_kept() {
    let header = cube_header(2, 2, 3, None, -32);
    let data = be_sample_bytes(&vec![1.0f32; 12]);
    let cube = ingest(&header, &data).unwrap();
    assert_eq!((cube.width, cube.height, cube.depth), (2, 2, 3));
}

#[test]
fn missing_naxis2_fails_missing_dimensions() {
    let mut header = cube_header(4, 0, 1, Some(7), -32);
    header.naxis2 = None;
    assert_eq!(ingest(&header, &[]).err(), Some(IngestError::MissingDimensions));
}

#[test]
fn non_integer_dimension_fails_missing_dimensions() {
    let mut header = cube_header(4, 0, 2, None, -32);
    header.naxis2 = Some(CardVal::Real(3.0f64.to_bits()));
    assert_eq!(ingest(&header, &[]).err(), Some(IngestError::MissingDimensions));
}

#[test]
fn bitpix_16_fails_unsupported_sample_format() {
    let header = cube_header(4, 3, 1, Some(7), 16);
    assert_eq!(ingest(&header, &[]).err(), Some(IngestError::UnsupportedSampleFormat));
}

#[test]
fn missing_bitpix_fails_unsupported_sample_format() {
    let mut header = cube_header(2, 2, 2, None, -32);
    header.bitpix = None;
    assert_eq!(ingest(&header, &[]).err(), Some(IngestError::UnsupportedSampleFormat));
}

#[test]
fn samples_decoded_big_endian() {
    let header = cube_header(2, 1, 1, None, -32);
    let vals = [1.5f32, -2.25];
    let data = be_sample_bytes(&vals);
    let cube = ingest(&header, &data).unwrap();
    assert_eq!(cube.samples.len(), 2);
    assert_eq!(f32::from_bits(cube.samples[0]), 1.5);
    assert_eq!(f32::from_bits(cube.samples[1]), -2.25);
}

#[test]
fn declared_range_read_from_real_cards() {
    let mut header = cube_header(1, 1, 1, None, -32);
    header.datamin = Some(CardVal::Real((-0.5f64).to_bits()));
    header.datamax = Some(CardVal::Real(2.5f64.to_bits()));
    let data = be_sample_bytes(&[0.0f32]);
    let cube = ingest(&header, &data).unwrap();
    assert_eq!(cube.declared_min.map(f64::from_bits), Some(-0.5));
    assert_eq!(cube.declared_max.map(f64::from_bits), Some(2.5));
}

#[test]
fn integer_valued_range_cards_ignored() {
    let mut header = cube_header(1, 1, 1, None, -32);
    header.datamin = Some(CardVal::Int(0));
    let data = be_sample_bytes(&[0.0f32]);
    let cube = ingest(&header, &data).unwrap();
    assert_eq!(cube.declared_min, None);
    assert_eq!(cube.declared_max, None);
}

#[test]
fn auto_cut_is_percentile_clip_of_samples() {
    let header = cube_header(10, 1, 1, None, -32);
    let vals = [60.0f32, 20.0, 100.0, 40.0, 80.0, 10.0, 90.0, 30.0, 70.0, 50.0];
    let data = be_sample_bytes(&vals);
    let cube = ingest(&header, &data).unwrap();
    // 5th/95th percentile of ten values: ranks 0 and 9
    assert_eq!(f32::from_bits(cube.auto_low), 10.0);
    assert_eq!(f32::from_bits(cube.auto_high), 100.0);
    // the sample buffer itself is intact, in storage order
    assert_eq!(f32::from_bits(cube.samples[0]), 60.0);
    assert_eq!(f32::from_bits(cube.samples[9]), 50.0);
}

#[test]
fn dimension_values_wrap_to_texture_extent() {
    // axis values are taken modulo 2^32, as the original unsigned extent
    let header = cube_header((1i64 << 32) + 5, 3, 2, None, -32);
    let data = be_sample_bytes(&vec![0.0f32; 30]);
    let cube = ingest(&header, &data).unwrap();
    assert_eq!((cube.width, cube.height, cube.depth), (5, 3, 2));
}

#[test]
fn partial_trailing_word_ignored() {
    let header = cube_header(2, 1, 1, None, -32);
    let mut data = be_sample_bytes(&[4.0f32, 8.0]);
    data.extend_from_slice(&[0x3F, 0x80]);
    let cube = ingest(&header, &data).unwrap();
    assert_eq!(cube.samples.len(), 2);
}
