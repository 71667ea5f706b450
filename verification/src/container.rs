//! The container boundary: reading the primary data unit of a FITS byte
//! stream through the `fitsrs` parser.
//!
//! The parse of an in-memory byte stream is a function of the bytes
//! alone, so its outcome carries a name: `parsed_unit_of` denotes, for a
//! stream, what the parser yields for its first header-data unit — no
//! unit, an extension, or the primary unit with the cards this pipeline
//! consumes and the offset of its data block.  The trusted wrappers
//! promise only that they return that named outcome; the verified logic
//! around them extracts the dimension and format cards, slices the data
//! block out of the caller's own buffer with checked arithmetic, and
//! decodes it under the exact contract of `ingest`.
//!
//! One family of inputs is kept away from the parser: headers whose
//! declared axis sizes overflow the parser's 64-bit data-block-size
//! arithmetic, which is a panic in overflow-checked builds.  The verified
//! guard of `crate::guard` scans the header records first and such
//! streams are rejected as not being a cube.

use vstd::prelude::*;
use vstd::slice::slice_subrange;

use crate::clip::clip_spec;
use crate::guard::{axis_sizes_bounded, axis_sizes_bounded_check};
use crate::ingest::{
    be_words, dims_spec, format_ok, has_dims, ingest, read_dims, real_card, CardVal, Cube, Header,
    IngestError,
};

verus! {

#[verifier::external_type_specification]
#[verifier::external_body]
#[verifier::reject_recursive_types(T)]
pub struct ExCursor<T>(std::io::Cursor<T>);

#[verifier::external_type_specification]
#[verifier::external_body]
#[verifier::reject_recursive_types(R)]
pub struct ExFits<R>(fitsrs::Fits<R>);

/// The parsed primary image unit.  The inner parser value is generic over
/// an extension-kind trait that cannot be declared here, so the whole
/// struct is opaque; what it holds is named by `unit_state` and read
/// through `primary_card` and `unit_offset` only.
#[verifier::external_body]
pub struct PrimaryUnit {
    inner: fitsrs::fits::HDU<fitsrs::hdu::header::extension::image::Image>,
}

/// What a parsed primary unit holds, as far as this pipeline consumes
/// it: the seven header cards and the byte offset of the data block.
pub struct ParsedPrimary {
    pub header: Header,
    pub data_offset: u64,
}

/// The parser's outcome for the first header-data unit of a stream.
pub enum ParsedUnit {
    /// No parseable unit: not a cube stream at all.
    NoUnit,
    /// The first unit is an extension, not the primary image unit.
    Extension,
    /// The primary image unit.
    Primary(ParsedPrimary),
}

/// Names the parser's outcome on a byte stream: what `fitsrs` yields for
/// the stream's first header-data unit.  The parse of an in-memory
/// stream depends on its bytes alone, so the same bytes always denote
/// the same outcome.  Nothing is assumed about its value; the wrappers
/// below say only that they return it.
pub uninterp spec fn parsed_unit_of(b: Seq<u8>) -> ParsedUnit;

/// Names the bytes a parser value reads: the stream it was opened over.
pub uninterp spec fn stream_of(f: fitsrs::Fits<std::io::Cursor<&[u8]>>) -> Seq<u8>;

/// Names whether a parser value has not yet yielded any unit.
pub uninterp spec fn pristine(f: fitsrs::Fits<std::io::Cursor<&[u8]>>) -> bool;

/// Names what an opaque primary unit holds.
pub uninterp spec fn unit_state(u: PrimaryUnit) -> ParsedPrimary;

/// Relies on `fitsrs::Fits::from_reader`: pure construction of a parser
/// over the caller's bytes, which it has not yet begun to read.
#[verifier::external_body]
fn open_stream<'a>(bytes: &'a [u8]) -> (f: fitsrs::Fits<std::io::Cursor<&'a [u8]>>)
    ensures
        stream_of(f) == bytes@,
        pristine(f),
{
    fitsrs::Fits::from_reader(std::io::Cursor::new(bytes))
}

/// Relies on the `Iterator` implementation of `fitsrs::Fits`: the first
/// item of a fresh parser is the stream's first header-data unit — the
/// primary unit where the header parses, an error where it does not (the
/// first unit of a stream is never an extension in this parser, but
/// nothing here depends on that) — and that outcome is a function of the
/// stream bytes.  The outcome is converted variant by variant, a parse
/// error counting as no unit.  Streams whose declared axis sizes
/// overflow the parser's 64-bit data-block-size arithmetic are excluded:
/// on those the parser does not return in overflow-checked builds.
#[verifier::external_body]
fn first_unit(f: &mut fitsrs::Fits<std::io::Cursor<&[u8]>>) -> (r: FirstUnit)
    requires
        pristine(*old(f)),
        axis_sizes_bounded(stream_of(*old(f))),
    ensures
        match r {
            FirstUnit::NoUnit => parsed_unit_of(stream_of(*old(f))) is NoUnit,
            FirstUnit::Extension => parsed_unit_of(stream_of(*old(f))) is Extension,
            FirstUnit::Primary(u) => parsed_unit_of(stream_of(*old(f))) == ParsedUnit::Primary(
                unit_state(u),
            ),
        },
{
    match f.next() {
        None => FirstUnit::NoUnit,
        Some(Err(_)) => FirstUnit::NoUnit,
        Some(Ok(fitsrs::HDU::Primary(hdu))) => FirstUnit::Primary(PrimaryUnit { inner: hdu }),
        Some(Ok(_)) => FirstUnit::Extension,
    }
}

/// What the parser yields for the first unit of the stream.
pub enum FirstUnit {
    /// No parseable unit: not a cube stream at all.
    NoUnit,
    /// The first unit is an extension, not the primary image unit.
    Extension,
    /// The primary image unit, carrying its parsed header.
    Primary(PrimaryUnit),
}

/// Relies on `fitsrs::fits::HDU::get_data_unit_byte_offset`: a field
/// read of the byte offset at which the unit's data block starts.
#[verifier::external_body]
fn unit_offset(u: &PrimaryUnit) -> (r: u64)
    ensures
        r == unit_state(*u).data_offset,
{
    u.inner.get_data_unit_byte_offset()
}

/// Relies on `fitsrs::hdu::header::Header::get` (via
/// `fitsrs::fits::HDU::get_header`): the value of the named card, if the
/// header holds one.  The card value is converted variant by variant; a
/// real-valued card is reported as its binary64 bit pattern.
#[verifier::external_body]
fn primary_card(u: &PrimaryUnit, name: &str) -> (r: Option<CardVal>)
    ensures
        name@ == "NAXIS1"@ ==> r == unit_state(*u).header.naxis1,
        name@ == "NAXIS2"@ ==> r == unit_state(*u).header.naxis2,
        name@ == "NAXIS3"@ ==> r == unit_state(*u).header.naxis3,
        name@ == "NAXIS4"@ ==> r == unit_state(*u).header.naxis4,
        name@ == "BITPIX"@ ==> r == unit_state(*u).header.bitpix,
        name@ == "DATAMIN"@ ==> r == unit_state(*u).header.datamin,
        name@ == "DATAMAX"@ ==> r == unit_state(*u).header.datamax,
{
    match u.inner.get_header().get(name) {
        None => None,
        Some(fitsrs::card::Value::Integer { value, .. }) => Some(CardVal::Int(*value)),
        Some(fitsrs::card::Value::Float { value, .. }) => Some(CardVal::Real(value.to_bits())),
        Some(_) => Some(CardVal::Other),
    }
}

/// Ingest a cube directly from container bytes.
///
/// A stream whose header declares axis sizes beyond the parser's 64-bit
/// size arithmetic is rejected as `NotACube` before parsing.  Otherwise
/// the result is determined by the parse outcome: no parseable unit is
/// `NotACube`, a non-primary first unit `UnexpectedExtension`; for the
/// primary unit, a missing dimension card is `MissingDimensions`, a
/// sample format other than 32-bit big-endian float
/// `UnsupportedSampleFormat`, a buffer too short for the declared data
/// block (four bytes per sample over the extent) `NotACube`, and
/// otherwise the cube decoded by `ingest` from the consumed cards and
/// exactly that data block.
pub fn ingest_bytes(bytes: &[u8]) -> (r: Result<Cube, IngestError>)
    ensures
        !axis_sizes_bounded(bytes@) ==> r == Err::<Cube, IngestError>(IngestError::NotACube),
        axis_sizes_bounded(bytes@) ==> match parsed_unit_of(bytes@) {
            ParsedUnit::NoUnit => r == Err::<Cube, IngestError>(IngestError::NotACube),
            ParsedUnit::Extension => r == Err::<Cube, IngestError>(
                IngestError::UnexpectedExtension,
            ),
            ParsedUnit::Primary(p) => {
                if !has_dims(p.header) {
                    r == Err::<Cube, IngestError>(IngestError::MissingDimensions)
                } else if !format_ok(p.header) {
                    r == Err::<Cube, IngestError>(IngestError::UnsupportedSampleFormat)
                } else {
                    let dims = dims_spec(p.header);
                    let size = 4 * (dims.0 as int) * (dims.1 as int) * (dims.2 as int);
                    if p.data_offset > bytes@.len() || size > bytes@.len() - p.data_offset {
                        r == Err::<Cube, IngestError>(IngestError::NotACube)
                    } else {
                        let data = bytes@.subrange(
                            p.data_offset as int,
                            p.data_offset + size,
                        );
                        match r {
                            Ok(c) => {
                                &&& (c.width, c.height, c.depth) == dims
                                &&& c.samples@ == be_words(data)
                                &&& c.declared_min == real_card(p.header.datamin)
                                &&& c.declared_max == real_card(p.header.datamax)
                                &&& (c.auto_low, c.auto_high) == clip_spec(be_words(data), 5, 95)
                            },
                            Err(_) => false,
                        }
                    }
                }
            },
        },
{
    if !axis_sizes_bounded_check(bytes) {
        return Err(IngestError::NotACube);
    }
    let mut fits = open_stream(bytes);
    match first_unit(&mut fits) {
        FirstUnit::NoUnit => Err(IngestError::NotACube),
        FirstUnit::Extension => Err(IngestError::UnexpectedExtension),
        FirstUnit::Primary(hdu) => {
            let ghost p = unit_state(hdu);
            let off64 = unit_offset(&hdu);
            let header = Header {
                naxis1: primary_card(&hdu, "NAXIS1"),
                naxis2: primary_card(&hdu, "NAXIS2"),
                naxis3: primary_card(&hdu, "NAXIS3"),
                naxis4: primary_card(&hdu, "NAXIS4"),
                bitpix: primary_card(&hdu, "BITPIX"),
                datamin: primary_card(&hdu, "DATAMIN"),
                datamax: primary_card(&hdu, "DATAMAX"),
            };
            proof {
                assert(has_dims(header) == has_dims(p.header));
                assert(has_dims(header) ==> dims_spec(header) == dims_spec(p.header));
                assert(format_ok(header) == format_ok(p.header));
            }
            match read_dims(&header) {
                None => Err(IngestError::MissingDimensions),
                Some((w, h, d)) => {
                    // an unsupported sample format is reported before the
                    // data block is sized, whose layout depends on it
                    let format_is_f32 = matches!(header.bitpix, Some(CardVal::Int(-32)));
                    if !format_is_f32 {
                        return ingest(&header, &[]);
                    }
                    proof {
                        let ww = w as int;
                        let hh = h as int;
                        let dd = d as int;
                        assert(0 <= 4 * ww * hh && 4 * ww * hh < 0x1_0000_0000_0000_0000_0000
                            && 0 <= 4 * ww * hh * dd && 4 * ww * hh * dd
                            < 0x1_0000_0000_0000_0000_0000_0000_0000_0000) by (nonlinear_arith)
                            requires
                                0 <= ww < 0x1_0000_0000,
                                0 <= hh < 0x1_0000_0000,
                                0 <= dd < 0x1_0000_0000,
                        ;
                    }
                    let size128: u128 = 4u128 * (w as u128) * (h as u128) * (d as u128);
                    if (off64 as u128) > (bytes.len() as u128) || size128 > (bytes.len() as u128)
                        - (off64 as u128) {
                        return Err(IngestError::NotACube);
                    }
                    let offset = off64 as usize;
                    let size = size128 as usize;
                    let data = slice_subrange(bytes, offset, offset + size);
                    ingest(&header, data)
                },
            }
        },
    }
}

} // verus!