use cubevis::container::ingest_bytes;
use cubevis::ingest::IngestError;

fn card(line: &str) -> [u8; 80] {
    let mut buf = [b' '; 80];
    buf[..line.len()].copy_from_slice(line.as_bytes());
    buf
}

fn header_block(cards: &[&str]) -> Vec<u8> {
    let mut out = Vec::new();
    for c in cards {
        out.extend_from_slice(&card(c));
    }
    out.extend_from_slice(&card("END"));
    while out.len() % 2880 != 0 {
        out.push(b' ');
    }
    out
}

fn be_samples(vals: &[f32]) -> Vec<u8> {
    let mut out = Vec::new();
    for v in vals {
        out.extend_from_slice(&v.to_bits().to_be_bytes());
    }
    out
}

#[test]
fn stream_round_trip_degenerate_third_axis() {
    // NAXIS1=4, NAXIS2=3, NAXIS3=1, NAXIS4=7, BITPIX=-32 yields (4, 3, 7)
    let mut stream = header_block(&[
        "SIMPLE  =                    T",
        "BITPIX  =                  -32",
        "NAXIS   =                    4",
        "NAXIS1  =                    4",
        "NAXIS2  =                    3",
        "NAXIS3  =                    1",
        "NAXIS4  =                    7",
    ]);
    let vals: Vec<f32> = (0..4 * 3 * 7).map(|i| i as f32).collect();
    stream.extend_from_slice(&be_samples(&vals));
    let cube = ingest_bytes(&stream).unwrap();
    assert_eq!((cube.width, cube.height, cube.depth), (4, 3, 7));
    assert_eq!(cube.samples.len(), 4 * 3 * 7);
    assert_eq!(f32::from_bits(cube.samples[5]), 5.0);
}

#[test]
fn stream_with_declared_range() {
    let mut stream = header_block(&[
        "SIMPLE  =                    T",
        "BITPIX  =                  -32",
        "NAXIS   =                    3",
        "NAXIS1  =                    2",
        "NAXIS2  =                    1",
        "NAXIS3  =                    1",
        "DATAMIN =                 -0.5",
        "DATAMAX =                  2.5",
    ]);
    stream.extend_from_slice(&be_samples(&[1.0, 2.0]));
    let cube = ingest_bytes(&stream).unwrap();
    assert_eq!(cube.declared_min.map(f64::from_bits), Some(-0.5));
    assert_eq!(cube.declared_max.map(f64::from_bits), Some(2.5));
}

#[test]
fn stream_bitpix_16_unsupported() {
    let mut stream = header_block(&[
        "SIMPLE  =                    T",
        "BITPIX  =                   16",
        "NAXIS   =                    3",
        "NAXIS1  =                    2",
        "NAXIS2  =                    2",
        "NAXIS3  =                    2",
    ]);
    stream.extend_from_slice(&[0u8; 16]);
    assert_eq!(ingest_bytes(&stream).err(), Some(IngestError::UnsupportedSampleFormat));
}

#[test]
fn garbage_stream_is_not_a_cube() {
    let noise = vec![0x42u8; 4096];
    assert_eq!(ingest_bytes(&noise).err(), Some(IngestError::NotACube));
}

#[test]
fn empty_stream_is_not_a_cube() {
    assert_eq!(ingest_bytes(&[]).err(), Some(IngestError::NotACube));
}

#[test]
fn truncated_data_block_is_not_a_cube() {
    let mut stream = header_block(&[
        "SIMPLE  =                    T",
        "BITPIX  =                  -32",
        "NAXIS   =                    3",
        "NAXIS1  =                   10",
        "NAXIS2  =                   10",
        "NAXIS3  =                   10",
    ]);
    // the header declares 4000 data bytes; provide only a few
    stream.extend_from_slice(&be_samples(&[1.0, 2.0, 3.0]));
    assert_eq!(ingest_bytes(&stream).err(), Some(IngestError::NotACube));
}

#[test]
fn stream_auto_cut_matches_direct_clip() {
    let vals = [60.0f32, 20.0, 100.0, 40.0, 80.0, 10.0, 90.0, 30.0, 70.0, 50.0];
    let mut stream = header_block(&[
        "SIMPLE  =                    T",
        "BITPIX  =                  -32",
        "NAXIS   =                    3",
        "NAXIS1  =                   10",
        "NAXIS2  =                    1",
        "NAXIS3  =                    1",
    ]);
    stream.extend_from_slice(&be_samples(&vals));
    let cube = ingest_bytes(&stream).unwrap();
    let mut work: Vec<u32> = cube.samples.clone();
    let expected = cubevis::clip::clip(&mut work, 5, 95);
    assert_eq!((cube.auto_low, cube.auto_high), expected);
    assert_eq!(f32::from_bits(cube.auto_low), 10.0);
    assert_eq!(f32::from_bits(cube.auto_high), 100.0);
}

#[test]
fn overflowing_declared_axes_rejected_without_panic() {
    // two axes of 2^32 samples declare a data block whose 64-bit size
    // computation would overflow inside the parser; the guard rejects the
    // stream before the parser sees it
    let stream = header_block(&[
        "SIMPLE  =                    T",
        "BITPIX  =                  -32",
        "NAXIS   =                    2",
        "NAXIS1  =           4294967296",
        "NAXIS2  =           4294967296",
    ]);
    assert_eq!(ingest_bytes(&stream).err(), Some(IngestError::NotACube));
}

#[test]
fn overflowing_axis_via_big_keyword_convention_rejected() {
    // the last occurrence of an axis keyword wins, also when it is written
    // in the big-keyword convention
    let stream = header_block(&[
        "SIMPLE  =                    T",
        "BITPIX  =                  -32",
        "NAXIS   =                    2",
        "NAXIS1  =                    1",
        "NAXIS2  =           4294967296",
        "HIERARCH NAXIS1 = 4294967296",
    ]);
    assert_eq!(ingest_bytes(&stream).err(), Some(IngestError::NotACube));
}

#[test]
fn negative_declared_axis_rejected() {
    let stream = header_block(&[
        "SIMPLE  =                    T",
        "BITPIX  =                  -32",
        "NAXIS   =                    2",
        "NAXIS1  =                   -1",
        "NAXIS2  =                    4",
    ]);
    assert_eq!(ingest_bytes(&stream).err(), Some(IngestError::NotACube));
}

#[test]
fn guard_accepts_ordinary_headers() {
    // a well-formed small cube still loads after the size guard
    let mut stream = header_block(&[
        "SIMPLE  =                    T",
        "BITPIX  =                  -32",
        "NAXIS   =                    3",
        "NAXIS1  =                    2",
        "NAXIS2  =                    2",
        "NAXIS3  =                    1",
    ]);
    stream.extend_from_slice(&be_samples(&[1.0, 2.0, 3.0, 4.0]));
    let cube = ingest_bytes(&stream).unwrap();
    assert_eq!((cube.width, cube.height, cube.depth), (2, 2, 1));
}

#[test]
fn same_bytes_same_outcome() {
    // the parse outcome is a function of the bytes alone
    let mut stream = header_block(&[
        "SIMPLE  =                    T",
        "BITPIX  =                  -32",
        "NAXIS   =                    3",
        "NAXIS1  =                    2",
        "NAXIS2  =                    1",
        "NAXIS3  =                    1",
    ]);
    stream.extend_from_slice(&be_samples(&[7.0, -7.0]));
    let a = ingest_bytes(&stream).unwrap();
    let b = ingest_bytes(&stream).unwrap();
    assert_eq!((a.width, a.height, a.depth), (b.width, b.height, b.depth));
    assert_eq!(a.samples, b.samples);
    assert_eq!((a.auto_low, a.auto_high), (b.auto_low, b.auto_high));
}
