//! Ingestion of a decoded data cube from container header fields and raw
//! sample bytes.
//!
//! The container format stores one primary data unit whose header is a set
//! of keyword cards.  The ingestor consumes the cards `NAXIS1`, `NAXIS2` and
//! `NAXIS3` (with `NAXIS4` standing in for the depth when `NAXIS3` is the
//! trivial axis 1), requires `BITPIX = -32` (32-bit big-endian IEEE floats,
//! the only sample format supported), and reads the optional `DATAMIN` /
//! `DATAMAX` range.  Sample bytes are decoded big-endian into native
//! binary32 bit patterns, and a default display range is computed over a
//! copy of the samples with the percentile clipper at the 5th and 95th
//! percentiles.

use vstd::prelude::*;

use crate::clip::{clip, clip_spec};

verus! {

/// The value of a header card, as the container's parser reports it.
///
/// An integer-valued card carries its value; a real-valued card carries the
/// binary64 bit pattern of its value; any other card kind (logical,
/// string, undefined) is `Other`.
#[derive(Clone, Copy, Debug, PartialEq, Eq, Structural)]
pub enum CardVal {
    Int(i64),
    Real(u64),
    Other,
}

/// The header cards of a primary data unit that the ingestor consumes.
/// `None` means the card is absent from the header.
#[derive(Clone, Copy, Debug, PartialEq, Eq, Structural)]
pub struct Header {
    pub naxis1: Option<CardVal>,
    pub naxis2: Option<CardVal>,
    pub naxis3: Option<CardVal>,
    pub naxis4: Option<CardVal>,
    pub bitpix: Option<CardVal>,
    pub datamin: Option<CardVal>,
    pub datamax: Option<CardVal>,
}

/// Why a load was rejected.  A failed load aborts only the load itself:
/// the caller keeps rendering its previous state.
#[derive(Clone, Copy, Debug, PartialEq, Eq, Structural)]
pub enum IngestError {
    /// The byte stream yields no parseable primary data unit.
    NotACube,
    /// The first unit of the container is not the expected primary kind.
    UnexpectedExtension,
    /// A required dimension card is absent or not integer-valued.
    MissingDimensions,
    /// The declared sample bit depth is not 32-bit big-endian float.
    UnsupportedSampleFormat,
}

/// The decoded volumetric dataset.
pub struct Cube {
    /// Extent along the three axes.
    pub width: u32,
    pub height: u32,
    pub depth: u32,
    /// Sample values as native binary32 bit patterns, in storage order.
    pub samples: Vec<u32>,
    /// Optional declared display range from the header, as binary64 bit
    /// patterns; authoritative when present.  The shell demotes them to
    /// binary32 at the uniform boundary.
    pub declared_min: Option<u64>,
    pub declared_max: Option<u64>,
    /// Display range computed by the percentile clipper, as binary32 bit
    /// patterns; the fallback when no declared range is given.
    pub auto_low: u32,
    pub auto_high: u32,
}

/// The integer value of a card, if it is present and integer-valued.
pub open spec fn int_card(c: Option<CardVal>) -> Option<i64> {
    match c {
        Some(CardVal::Int(v)) => Some(v),
        _ => None,
    }
}

/// The binary64 bits of a card, if it is present and real-valued.
pub open spec fn real_card(c: Option<CardVal>) -> Option<u64> {
    match c {
        Some(CardVal::Real(b)) => Some(b),
        _ => None,
    }
}

/// Whether the three required dimension cards are present and
/// integer-valued.
pub open spec fn has_dims(h: Header) -> bool {
    int_card(h.naxis1) is Some && int_card(h.naxis2) is Some && int_card(h.naxis3) is Some
}

/// The cube extent read from the header: the first three axes, except that
/// a trivial third axis of 1 is replaced by an integer-valued fourth axis
/// when one is present.  Axis values are taken modulo 2^32, as the unsigned
/// texture extent.
pub open spec fn dims_spec(h: Header) -> (u32, u32, u32)
    recommends
        has_dims(h),
{
    let w = int_card(h.naxis1)->0 as u32;
    let hh = int_card(h.naxis2)->0 as u32;
    let d = int_card(h.naxis3)->0 as u32;
    if d == 1 && int_card(h.naxis4) is Some {
        (w, hh, int_card(h.naxis4)->0 as u32)
    } else {
        (w, hh, d)
    }
}

/// Whether the header declares the one supported sample format.
pub open spec fn format_ok(h: Header) -> bool {
    int_card(h.bitpix) == Some(-32i64)
}

/// A big-endian 32-bit word read from four bytes.
pub open spec fn be32(b0: u8, b1: u8, b2: u8, b3: u8) -> u32 {
    (b0 as int * 0x100_0000 + b1 as int * 0x1_0000 + b2 as int * 0x100 + b3 as int) as u32
}

/// The complete big-endian 32-bit words of a byte sequence, in order.
pub open spec fn be_words(d: Seq<u8>) -> Seq<u32> {
    Seq::new(d.len() / 4, |i: int| be32(d[4 * i], d[4 * i + 1], d[4 * i + 2], d[4 * i + 3]))
}

/// Decode the complete big-endian 32-bit words of a byte slice.
pub fn decode_be_words(data: &[u8]) -> (out: Vec<u32>)
    ensures
        out@ == be_words(data@),
{
    let n = data.len() / 4;
    let mut out: Vec<u32> = Vec::new();
    let mut i: usize = 0;
    while i < n
        invariant
            i <= n == data@.len() / 4,
            data@.len() <= usize::MAX,
            out@ =~= be_words(data@).subrange(0, i as int),
        decreases n - i,
    {
        proof {
            vstd::arithmetic::div_mod::lemma_fundamental_div_mod(data@.len() as int, 4);
            assert(4 * i + 3 < data@.len());
        }
        let w = (data[4 * i] as u32) * 0x100_0000 + (data[4 * i + 1] as u32) * 0x1_0000 + (data[4
            * i + 2] as u32) * 0x100 + (data[4 * i + 3] as u32);
        out.push(w);
        proof {
            assert(out@ =~= be_words(data@).subrange(0, i + 1));
        }
        i = i + 1;
    }
    proof {
        assert(out@ =~= be_words(data@));
    }
    out
}

/// Read the cube extent from the dimension cards: `None` exactly when a
/// required card is absent or not integer-valued.
pub fn read_dims(header: &Header) -> (r: Option<(u32, u32, u32)>)
    ensures
        r is Some <==> has_dims(*header),
        has_dims(*header) ==> r == Some(dims_spec(*header)),
{
    let w64 = match header.naxis1 {
        Some(CardVal::Int(v)) => v,
        _ => { return None; },
    };
    let h64 = match header.naxis2 {
        Some(CardVal::Int(v)) => v,
        _ => { return None; },
    };
    let d64 = match header.naxis3 {
        Some(CardVal::Int(v)) => v,
        _ => { return None; },
    };
    #[verifier::truncate]
    let width = w64 as u32;
    #[verifier::truncate]
    let height = h64 as u32;
    #[verifier::truncate]
    let mut depth = d64 as u32;
    if depth == 1 {
        if let Some(CardVal::Int(v4)) = header.naxis4 {
            #[verifier::truncate]
            let d4 = v4 as u32;
            depth = d4;
        }
    }
    Some((width, height, depth))
}

/// Decode a cube from the consumed header cards and the raw bytes of the
/// primary data unit.
///
/// The extent is read from the dimension cards (failing with
/// `MissingDimensions` when one is absent or not integer-valued), the
/// sample format must be 32-bit big-endian float (failing with
/// `UnsupportedSampleFormat` otherwise), the optional declared range is
/// read from `DATAMIN` / `DATAMAX` (absence is not an error), and the
/// default display range is the 5th/95th percentile clip of a copy of the
/// decoded samples — the sample buffer itself is returned intact.
pub fn ingest(header: &Header, data: &[u8]) -> (r: Result<Cube, IngestError>)
    ensures
        !has_dims(*header) ==> r == Err::<Cube, IngestError>(IngestError::MissingDimensions),
        has_dims(*header) && !format_ok(*header) ==> r == Err::<Cube, IngestError>(
            IngestError::UnsupportedSampleFormat,
        ),
        has_dims(*header) && format_ok(*header) ==> match r {
            Ok(c) => {
                &&& (c.width, c.height, c.depth) == dims_spec(*header)
                &&& c.samples@ == be_words(data@)
                &&& c.declared_min == real_card(header.datamin)
                &&& c.declared_max == real_card(header.datamax)
                &&& (c.auto_low, c.auto_high) == clip_spec(be_words(data@), 5, 95)
            },
            Err(_) => false,
        },
{
    let (width, height, depth) = match read_dims(header) {
        Some(dims) => dims,
        None => { return Err(IngestError::MissingDimensions); },
    };
    match header.bitpix {
        Some(CardVal::Int(-32)) => {},
        _ => { return Err(IngestError::UnsupportedSampleFormat); },
    }
    let declared_min = match header.datamin {
        Some(CardVal::Real(b)) => Some(b),
        _ => None,
    };
    let declared_max = match header.datamax {
        Some(CardVal::Real(b)) => Some(b),
        _ => None,
    };
    let samples = decode_be_words(data);
    let mut work: Vec<u32> = Vec::new();
    let mut i: usize = 0;
    while i < samples.len()
        invariant
            i <= samples.len(),
            work@ =~= samples@.subrange(0, i as int),
        decreases samples.len() - i,
    {
        work.push(samples[i]);
        i = i + 1;
    }
    proof {
        assert(work@ =~= samples@);
    }
    let (auto_low, auto_high) = clip(&mut work, 5, 95);
    Ok(
        Cube {
            width,
            height,
            depth,
            samples,
            declared_min,
            declared_max,
            auto_low,
            auto_high,
        },
    )
}

} // verus!
