//! Decoding of the tunnel/bridge pool blob (`TNBP`) carried in a save footer.
//!
//! The blob is read as a saveload chunk body: a run of gamma-prefixed segments
//! ending in a zero gamma. When the first segment is a table header
//! (`CH_TABLE` style: field type, field name, ..., end marker) the remaining
//! segments are rows of that table; otherwise the raw segments are returned.

use vstd::prelude::*;
use vstd::utf8::{decode_utf8, valid_utf8};

verus! {

/// What went wrong while reading a blob.
#[derive(Debug, Clone, Copy, PartialEq, Eq, Structural)]
pub enum TnbpDecodeError {
    Truncado,
    GammaNoSoportado,
    CabeceraTablaInvalida,
    FilaTruncada,
    TipoCampoNoSoportado(u8),
}

/// A cell value of a table row (the basic saveload file types).
#[derive(Debug, Clone, PartialEq)]
pub enum SlPrimitive {
    I8(i8),
    U8(u8),
    I16(i16),
    U16(u16),
    I32(i32),
    U32(u32),
    /// A string id (big-endian `u16`).
    StringId(u16),
    /// A string (gamma length, then UTF-8 bytes).
    Str(String),
}

/// Mathematical value of a cell.
pub enum SlValue {
    I8(i8),
    U8(u8),
    I16(i16),
    U16(u16),
    I32(i32),
    U32(u32),
    StringId(u16),
    Str(Seq<char>),
}

impl View for SlPrimitive {
    type V = SlValue;

    open spec fn view(&self) -> SlValue {
        match self {
            SlPrimitive::I8(v) => SlValue::I8(*v),
            SlPrimitive::U8(v) => SlValue::U8(*v),
            SlPrimitive::I16(v) => SlValue::I16(*v),
            SlPrimitive::U16(v) => SlValue::U16(*v),
            SlPrimitive::I32(v) => SlValue::I32(*v),
            SlPrimitive::U32(v) => SlValue::U32(*v),
            SlPrimitive::StringId(v) => SlValue::StringId(*v),
            SlPrimitive::Str(s) => SlValue::Str(s@),
        }
    }
}

/// A table header field: its name and its file type (low nibble of the type byte).
#[derive(Debug, Clone, PartialEq, Eq)]
pub struct SlTableField {
    pub name: String,
    pub file_type: u8,
}

impl View for SlTableField {
    type V = (Seq<char>, u8);

    open spec fn view(&self) -> (Seq<char>, u8) {
        (self.name@, self.file_type)
    }
}

/// What a blob decodes to.
#[derive(Debug, Clone, PartialEq)]
pub enum TnbpDecoded {
    /// A table chunk: header fields and the rows that fit them.
    ChTable {
        fields: Vec<SlTableField>,
        rows: Vec<Vec<(String, SlPrimitive)>>,
        /// Rows that did not fit the header.
        skipped_rows: usize,
    },
    /// Not a table: the raw gamma segments.
    RawGammaSegments { segments: Vec<Vec<u8>> },
}

/// Mathematical value of a decoded blob.
pub enum DecodedView {
    ChTable {
        fields: Seq<(Seq<char>, u8)>,
        rows: Seq<Seq<(Seq<char>, SlValue)>>,
        skipped_rows: int,
    },
    RawGammaSegments { segments: Seq<Seq<u8>> },
}

impl View for TnbpDecoded {
    type V = DecodedView;

    open spec fn view(&self) -> DecodedView {
        match self {
            TnbpDecoded::ChTable { fields, rows, skipped_rows } => DecodedView::ChTable {
                fields: fields_view(fields@),
                rows: rows@.map_values(|r: Vec<(String, SlPrimitive)>| row_view(r@)),
                skipped_rows: *skipped_rows as int,
            },
            TnbpDecoded::RawGammaSegments { segments } => DecodedView::RawGammaSegments {
                segments: segments@.map_values(|v: Vec<u8>| v@),
            },
        }
    }
}

/// A tunnel as the JGR patch pack saves it (`tile_n`, `tile_s`, `height`, ...).
#[derive(Debug, Clone, Copy, PartialEq, Eq, Structural)]
pub struct JgrTunnelRecord {
    pub tile_n: u32,
    pub tile_s: u32,
    pub height: u8,
    pub is_chunnel: bool,
    pub style_n: Option<u8>,
    pub style_s: Option<u8>,
}

pub const SLE_FILE_END: u8 = 0;
pub const SLE_FILE_I8: u8 = 1;
pub const SLE_FILE_U8: u8 = 2;
pub const SLE_FILE_I16: u8 = 3;
pub const SLE_FILE_U16: u8 = 4;
pub const SLE_FILE_I32: u8 = 5;
pub const SLE_FILE_U32: u8 = 6;
pub const SLE_FILE_STRINGID: u8 = 9;
pub const SLE_FILE_STRING: u8 = 10;

// ---------------------------------------------------------------------------
// Byte-level readers. Each spec gives the outcome and the offset after the call.
// ---------------------------------------------------------------------------

/// Big-endian `u16` at `off`.
pub open spec fn spec_read_u16_be(data: Seq<u8>, off: int) -> (Result<u16, TnbpDecodeError>, int) {
    if off < 0 || off + 2 > data.len() {
        (Err(TnbpDecodeError::Truncado), off)
    } else {
        (Ok((data[off] as int * 256 + data[off + 1] as int) as u16), off + 2)
    }
}

/// Big-endian `u32` at `off`, read as two `u16` halves.
pub open spec fn spec_read_u32_be(data: Seq<u8>, off: int) -> (Result<u32, TnbpDecodeError>, int) {
    let (hi, o1) = spec_read_u16_be(data, off);
    match hi {
        Err(e) => (Err(e), o1),
        Ok(h) => {
            let (lo, o2) = spec_read_u16_be(data, o1);
            match lo {
                Err(e) => (Err(e), o2),
                Ok(l) => (Ok((h as int * 65536 + l as int) as u32), o2),
            }
        },
    }
}

/// Saveload "simple gamma": the count of leading one bits of the first byte
/// says how many bytes follow; `11111xxx` is not supported.
pub open spec fn spec_read_gamma(data: Seq<u8>, off: int) -> (Result<u32, TnbpDecodeError>, int) {
    if off < 0 || off >= data.len() {
        (Err(TnbpDecodeError::Truncado), off)
    } else {
        let b0 = data[off];
        if b0 < 0x80 {
            (Ok(b0 as u32), off + 1)
        } else if b0 < 0xC0 {
            if off + 2 > data.len() {
                (Err(TnbpDecodeError::Truncado), data.len() as int)
            } else {
                (Ok(((b0 - 0x80) * 256 + data[off + 1]) as u32), off + 2)
            }
        } else if b0 < 0xE0 {
            let (lo, o) = spec_read_u16_be(data, off + 1);
            match lo {
                Err(e) => (Err(e), o),
                Ok(l) => (Ok(((b0 - 0xC0) * 65536 + l) as u32), o),
            }
        } else if b0 < 0xF0 {
            if off + 4 > data.len() {
                (Err(TnbpDecodeError::Truncado), data.len() as int)
            } else {
                (
                    Ok(
                        ((b0 - 0xE0) * 0x100_0000 + data[off + 1] * 0x1_0000 + data[off + 2] * 0x100
                            + data[off + 3]) as u32,
                    ),
                    off + 4,
                )
            }
        } else if b0 < 0xF8 {
            spec_read_u32_be(data, off + 1)
        } else {
            (Err(TnbpDecodeError::GammaNoSoportado), off + 1)
        }
    }
}

/// A successful gamma read consumes at least one byte and stays in bounds.
pub proof fn lemma_gamma_advances(data: Seq<u8>, off: int)
    ensures
        spec_read_gamma(data, off).0 is Ok ==> off < spec_read_gamma(data, off).1 <= data.len(),
{
}

/// Gamma length, then that many bytes of UTF-8.
pub open spec fn spec_read_string(data: Seq<u8>, off: int) -> (Result<Seq<char>, TnbpDecodeError>, int) {
    let (g, o) = spec_read_gamma(data, off);
    match g {
        Err(e) => (Err(e), o),
        Ok(len) => {
            if o + len > data.len() {
                (Err(TnbpDecodeError::Truncado), o)
            } else if !valid_utf8(data.subrange(o, o + len)) {
                (Err(TnbpDecodeError::CabeceraTablaInvalida), o)
            } else {
                (Ok(decode_utf8(data.subrange(o, o + len))), o + len)
            }
        },
    }
}

/// Wraps `std::str::from_utf8`. Its documentation: the call fails exactly
/// when the bytes are not valid UTF-8, and otherwise gives the text they
/// encode. The contract says so with vstd's `valid_utf8` and `decode_utf8`.
#[verifier::external_body]
fn utf8_text(bytes: &[u8]) -> (r: Option<&str>)
    ensures
        r is Some <==> valid_utf8(bytes@),
        r matches Some(s) ==> s@ == decode_utf8(bytes@),
{
    match std::str::from_utf8(bytes) {
        Ok(s) => Some(s),
        Err(_) => None,
    }
}

fn read_u16_be(data: &[u8], off: &mut usize) -> (r: Result<u16, TnbpDecodeError>)
    ensures
        (r, *final(off) as int) == spec_read_u16_be(data@, *old(off) as int),
{
    if *off > data.len() || data.len() - *off < 2 {
        return Err(TnbpDecodeError::Truncado);
    }
    let hi = data[*off];
    let lo = data[*off + 1];
    let v: u16 = (hi as u16) * 256 + (lo as u16);
    *off = *off + 2;
    Ok(v)
}

fn read_u32_be(data: &[u8], off: &mut usize) -> (r: Result<u32, TnbpDecodeError>)
    ensures
        (r, *final(off) as int) == spec_read_u32_be(data@, *old(off) as int),
{
    let hi = match read_u16_be(data, off) {
        Ok(v) => v,
        Err(e) => return Err(e),
    };
    let lo = match read_u16_be(data, off) {
        Ok(v) => v,
        Err(e) => return Err(e),
    };
    Ok((hi as u32) * 65536 + (lo as u32))
}

/// Reads a saveload gamma at `*off` and advances `*off` past what was read.
pub fn read_sl_gamma(data: &[u8], off: &mut usize) -> (r: Result<u32, TnbpDecodeError>)
    ensures
        (r, *final(off) as int) == spec_read_gamma(data@, *old(off) as int),
{
    if *off >= data.len() {
        return Err(TnbpDecodeError::Truncado);
    }
    let b0 = data[*off];
    *off = *off + 1;
    if b0 < 0x80 {
        return Ok(b0 as u32);
    }
    if b0 < 0xC0 {
        if *off >= data.len() {
            *off = data.len();
            return Err(TnbpDecodeError::Truncado);
        }
        let lo = data[*off];
        *off = *off + 1;
        return Ok(((b0 - 0x80) as u32) * 256 + (lo as u32));
    }
    if b0 < 0xE0 {
        let lo = match read_u16_be(data, off) {
            Ok(v) => v,
            Err(e) => return Err(e),
        };
        return Ok(((b0 - 0xC0) as u32) * 65536 + (lo as u32));
    }
    if b0 < 0xF0 {
        if data.len() - *off < 3 {
            *off = data.len();
            return Err(TnbpDecodeError::Truncado);
        }
        let b1 = data[*off];
        let b2 = data[*off + 1];
        let b3 = data[*off + 2];
        *off = *off + 3;
        return Ok(((b0 - 0xE0) as u32) * 0x100_0000 + (b1 as u32) * 0x1_0000 + (b2 as u32) * 0x100
            + (b3 as u32));
    }
    if b0 < 0xF8 {
        return read_u32_be(data, off);
    }
    Err(TnbpDecodeError::GammaNoSoportado)
}

fn read_sl_string(data: &[u8], off: &mut usize) -> (r: Result<String, TnbpDecodeError>)
    ensures
        ({
            let (sr, so) = spec_read_string(data@, *old(off) as int);
            &&& *final(off) as int == so
            &&& match (r, sr) {
                (Ok(s), Ok(t)) => s@ == t,
                (Err(e), Err(f)) => e == f,
                _ => false,
            }
        }),
{
    let len = match read_sl_gamma(data, off) {
        Ok(v) => v as usize,
        Err(e) => return Err(e),
    };
    proof {
        lemma_gamma_advances(data@, *old(off) as int);
    }
    if len > data.len() - *off {
        return Err(TnbpDecodeError::Truncado);
    }
    let bytes = &data[*off..*off + len];
    match utf8_text(bytes) {
        None => Err(TnbpDecodeError::CabeceraTablaInvalida),
        Some(text) => {
            *off = *off + len;
            let s = text.to_string();
            proof {
                vstd::string::to_string_from_display_ensures_for_str(text, s);
            }
            Ok(s)
        },
    }
}

// ---------------------------------------------------------------------------
// Segments
// ---------------------------------------------------------------------------

/// Puts `p` in front of a successful result; an error stays as it is.
pub open spec fn prepend<A>(p: Seq<A>, r: Result<Seq<A>, TnbpDecodeError>) -> Result<Seq<A>, TnbpDecodeError> {
    match r {
        Ok(s) => Ok(p + s),
        Err(e) => Err(e),
    }
}

/// Segments from `off` on: gamma `g`, then `g - 1` payload bytes, until a zero gamma.
pub open spec fn spec_split_from(blob: Seq<u8>, off: int) -> Result<Seq<Seq<u8>>, TnbpDecodeError>
    decreases blob.len() - off,
{
    let (g, o) = spec_read_gamma(blob, off);
    match g {
        Err(e) => Err(e),
        Ok(v) => {
            if v == 0 {
                Ok(seq![])
            } else if o + (v - 1) > blob.len() {
                Err(TnbpDecodeError::Truncado)
            } else {
                proof {
                    lemma_gamma_advances(blob, off);
                }
                prepend(seq![blob.subrange(o, o + (v - 1))], spec_split_from(blob, o + (v - 1)))
            }
        },
    }
}

/// The views of a list of byte slices.
pub open spec fn slices_view(v: Seq<&[u8]>) -> Seq<Seq<u8>> {
    v.map_values(|s: &[u8]| s@)
}

/// Splits a chunk body into its gamma-prefixed segments. Bytes after the
/// terminating zero gamma are ignored.
pub fn split_sl_gamma_segments(blob: &[u8]) -> (r: Result<Vec<&[u8]>, TnbpDecodeError>)
    ensures
        match (r, spec_split_from(blob@, 0)) {
            (Ok(v), Ok(s)) => slices_view(v@) == s,
            (Err(e), Err(f)) => e == f,
            _ => false,
        },
{
    let mut out: Vec<&[u8]> = Vec::new();
    let mut off: usize = 0;
    loop
        invariant
            off <= blob@.len(),
            spec_split_from(blob@, 0) == prepend(slices_view(out@), spec_split_from(blob@, off as int)),
        decreases blob@.len() - off,
    {
        let ghost off0 = off as int;
        let g = match read_sl_gamma(blob, &mut off) {
            Ok(v) => v,
            Err(e) => {
                return Err(e);
            },
        };
        proof {
            lemma_gamma_advances(blob@, off0);
        }
        if g == 0 {
            assert(slices_view(out@) + seq![] =~= slices_view(out@));
            return Ok(out);
        }
        let plen = (g - 1) as usize;
        if plen > blob.len() - off {
            return Err(TnbpDecodeError::Truncado);
        }
        let seg = &blob[off..off + plen];
        proof {
            let rest = spec_split_from(blob@, off + plen);
            assert(slices_view(out@.push(seg)) =~= slices_view(out@) + seq![seg@]);
            match rest {
                Ok(t) => {
                    assert(slices_view(out@) + (seq![seg@] + t) =~= slices_view(out@.push(seg)) + t);
                },
                Err(_) => {},
            }
        }
        out.push(seg);
        off = off + plen;
    }
}

// ---------------------------------------------------------------------------
// Table header and rows
// ---------------------------------------------------------------------------

/// A string read consumes at least one byte and stays in bounds.
pub proof fn lemma_string_advances(data: Seq<u8>, off: int)
    ensures
        spec_read_string(data, off).0 is Ok ==> off < spec_read_string(data, off).1 <= data.len(),
{
    lemma_gamma_advances(data, off);
}

/// Header fields from `off` on: type byte, name, ..., then a zero type byte
/// that must be the last byte of the header.
pub open spec fn spec_header_from(hdr: Seq<u8>, off: int) -> Result<Seq<(Seq<char>, u8)>, TnbpDecodeError>
    decreases hdr.len() - off,
{
    if off < 0 || off >= hdr.len() {
        Err(TnbpDecodeError::Truncado)
    } else {
        let ft = hdr[off];
        if ft == SLE_FILE_END {
            if off + 1 != hdr.len() {
                Err(TnbpDecodeError::CabeceraTablaInvalida)
            } else {
                Ok(seq![])
            }
        } else {
            let (name, o) = spec_read_string(hdr, off + 1);
            match name {
                Err(e) => Err(e),
                Ok(n) => {
                    proof {
                        lemma_string_advances(hdr, off + 1);
                    }
                    prepend(seq![(n, ft & 0x0F)], spec_header_from(hdr, o))
                },
            }
        }
    }
}

pub open spec fn fields_view(v: Seq<SlTableField>) -> Seq<(Seq<char>, u8)> {
    v.map_values(|f: SlTableField| f@)
}

fn parse_sl_table_header(hdr: &[u8]) -> (r: Result<Vec<SlTableField>, TnbpDecodeError>)
    ensures
        match (r, spec_header_from(hdr@, 0)) {
            (Ok(v), Ok(s)) => fields_view(v@) == s,
            (Err(e), Err(f)) => e == f,
            _ => false,
        },
{
    let mut off: usize = 0;
    let mut fields: Vec<SlTableField> = Vec::new();
    loop
        invariant
            off <= hdr@.len(),
            spec_header_from(hdr@, 0) == prepend(fields_view(fields@), spec_header_from(hdr@, off as int)),
        decreases hdr@.len() - off,
    {
        if off >= hdr.len() {
            return Err(TnbpDecodeError::Truncado);
        }
        let ftype = hdr[off];
        off = off + 1;
        if ftype == SLE_FILE_END {
            if off != hdr.len() {
                return Err(TnbpDecodeError::CabeceraTablaInvalida);
            }
            assert(fields_view(fields@) + seq![] =~= fields_view(fields@));
            return Ok(fields);
        }
        let ghost off1 = off as int;
        let name = match read_sl_string(hdr, &mut off) {
            Ok(n) => n,
            Err(e) => return Err(e),
        };
        proof {
            lemma_string_advances(hdr@, off1);
        }
        let f = SlTableField { name, file_type: ftype & 0x0F };
        proof {
            let rest = spec_header_from(hdr@, off as int);
            assert(fields_view(fields@.push(f)) =~= fields_view(fields@) + seq![f@]);
            match rest {
                Ok(t) => {
                    assert(fields_view(fields@) + (seq![f@] + t) =~= fields_view(fields@.push(f)) + t);
                },
                Err(_) => {},
            }
        }
        fields.push(f);
    }
}

/// One cell of file type `ft` at `off`.
pub open spec fn spec_read_primitive(ft: u8, row: Seq<u8>, off: int) -> (Result<SlValue, TnbpDecodeError>, int) {
    if ft == SLE_FILE_I8 || ft == SLE_FILE_U8 {
        if off < 0 || off >= row.len() {
            (Err(TnbpDecodeError::FilaTruncada), off)
        } else if ft == SLE_FILE_I8 {
            (Ok(SlValue::I8(row[off] as i8)), off + 1)
        } else {
            (Ok(SlValue::U8(row[off])), off + 1)
        }
    } else if ft == SLE_FILE_I16 || ft == SLE_FILE_U16 || ft == SLE_FILE_STRINGID {
        let (r, o) = spec_read_u16_be(row, off);
        match r {
            Err(e) => (Err(e), o),
            Ok(v) => (
                Ok(
                    if ft == SLE_FILE_I16 {
                        SlValue::I16(v as i16)
                    } else if ft == SLE_FILE_U16 {
                        SlValue::U16(v)
                    } else {
                        SlValue::StringId(v)
                    },
                ),
                o,
            ),
        }
    } else if ft == SLE_FILE_I32 || ft == SLE_FILE_U32 {
        let (r, o) = spec_read_u32_be(row, off);
        match r {
            Err(e) => (Err(e), o),
            Ok(v) => (
                Ok(
                    if ft == SLE_FILE_I32 {
                        SlValue::I32(v as i32)
                    } else {
                        SlValue::U32(v)
                    },
                ),
                o,
            ),
        }
    } else if ft == SLE_FILE_STRING {
        let (r, o) = spec_read_string(row, off);
        match r {
            Err(e) => (Err(e), o),
            Ok(t) => (Ok(SlValue::Str(t)), o),
        }
    } else {
        (Err(TnbpDecodeError::TipoCampoNoSoportado(ft)), off)
    }
}

fn read_primitive(file_type: u8, row: &[u8], off: &mut usize) -> (r: Result<SlPrimitive, TnbpDecodeError>)
    ensures
        ({
            let (sr, so) = spec_read_primitive(file_type, row@, *old(off) as int);
            &&& *final(off) as int == so
            &&& match (r, sr) {
                (Ok(p), Ok(v)) => p@ == v,
                (Err(e), Err(f)) => e == f,
                _ => false,
            }
        }),
{
    if file_type == SLE_FILE_I8 || file_type == SLE_FILE_U8 {
        if *off >= row.len() {
            return Err(TnbpDecodeError::FilaTruncada);
        }
        let v = row[*off];
        *off = *off + 1;
        if file_type == SLE_FILE_I8 {
            Ok(SlPrimitive::I8(v as i8))
        } else {
            Ok(SlPrimitive::U8(v))
        }
    } else if file_type == SLE_FILE_I16 || file_type == SLE_FILE_U16 || file_type == SLE_FILE_STRINGID {
        let v = match read_u16_be(row, off) {
            Ok(v) => v,
            Err(e) => return Err(e),
        };
        if file_type == SLE_FILE_I16 {
            Ok(SlPrimitive::I16(v as i16))
        } else if file_type == SLE_FILE_U16 {
            Ok(SlPrimitive::U16(v))
        } else {
            Ok(SlPrimitive::StringId(v))
        }
    } else if file_type == SLE_FILE_I32 || file_type == SLE_FILE_U32 {
        let v = match read_u32_be(row, off) {
            Ok(v) => v,
            Err(e) => return Err(e),
        };
        if file_type == SLE_FILE_I32 {
            Ok(SlPrimitive::I32(v as i32))
        } else {
            Ok(SlPrimitive::U32(v))
        }
    } else if file_type == SLE_FILE_STRING {
        match read_sl_string(row, off) {
            Ok(s) => Ok(SlPrimitive::Str(s)),
            Err(e) => Err(e),
        }
    } else {
        Err(TnbpDecodeError::TipoCampoNoSoportado(file_type))
    }
}

/// The cells for the first `k` fields, and the offset reached.
pub open spec fn spec_cells(fields: Seq<(Seq<char>, u8)>, payload: Seq<u8>, k: int) -> (
    Result<Seq<(Seq<char>, SlValue)>, TnbpDecodeError>,
    int,
)
    decreases k,
{
    if k <= 0 {
        (Ok(seq![]), 0)
    } else {
        let (r, o) = spec_cells(fields, payload, k - 1);
        match r {
            Err(e) => (Err(e), o),
            Ok(cs) => {
                let (p, o2) = spec_read_primitive(fields[k - 1].1, payload, o);
                match p {
                    Err(e) => (Err(e), o2),
                    Ok(v) => (Ok(cs.push((fields[k - 1].0, v))), o2),
                }
            },
        }
    }
}

/// A row: one cell per field, in order. Bytes left over are tolerated when
/// at least one cell was read.
pub open spec fn spec_parse_row(fields: Seq<(Seq<char>, u8)>, payload: Seq<u8>) -> Result<
    Seq<(Seq<char>, SlValue)>,
    TnbpDecodeError,
> {
    let (r, o) = spec_cells(fields, payload, fields.len() as int);
    match r {
        Err(e) => Err(e),
        Ok(cs) => {
            if o != payload.len() && cs.len() == 0 {
                Err(TnbpDecodeError::FilaTruncada)
            } else {
                Ok(cs)
            }
        },
    }
}

/// Once a cell fails, every longer prefix fails with the same error.
pub proof fn lemma_cells_error_sticks(fields: Seq<(Seq<char>, u8)>, payload: Seq<u8>, k: int, n: int)
    requires
        0 <= k <= n,
        spec_cells(fields, payload, k).0 is Err,
    ensures
        spec_cells(fields, payload, n).0 == spec_cells(fields, payload, k).0,
    decreases n - k,
{
    if k < n {
        lemma_cells_error_sticks(fields, payload, k, n - 1);
    }
}

pub open spec fn row_view(v: Seq<(String, SlPrimitive)>) -> Seq<(Seq<char>, SlValue)> {
    v.map_values(|c: (String, SlPrimitive)| (c.0@, c.1@))
}

fn parse_row(fields: &Vec<SlTableField>, payload: &[u8]) -> (r: Result<Vec<(String, SlPrimitive)>, TnbpDecodeError>)
    ensures
        match (r, spec_parse_row(fields_view(fields@), payload@)) {
            (Ok(v), Ok(s)) => row_view(v@) == s,
            (Err(e), Err(f)) => e == f,
            _ => false,
        },
{
    let ghost fv = fields_view(fields@);
    let mut off: usize = 0;
    let mut cells: Vec<(String, SlPrimitive)> = Vec::new();
    let mut i: usize = 0;
    assert(row_view(cells@) =~= seq![]);
    while i < fields.len()
        invariant
            i <= fields@.len(),
            fv == fields_view(fields@),
            spec_cells(fv, payload@, i as int) == (Ok::<Seq<(Seq<char>, SlValue)>, TnbpDecodeError>(row_view(cells@)), off as int),
        decreases fields@.len() - i,
    {
        let p = match read_primitive(fields[i].file_type, payload, &mut off) {
            Ok(p) => p,
            Err(e) => {
                proof {
                    lemma_cells_error_sticks(fv, payload@, i + 1, fv.len() as int);
                }
                return Err(e);
            },
        };
        let c = (fields[i].name.clone(), p);
        proof {
            assert(row_view(cells@.push(c)) =~= row_view(cells@).push((fields@[i as int].name@, p@)));
        }
        cells.push(c);
        i = i + 1;
    }
    if off != payload.len() && cells.len() == 0 {
        return Err(TnbpDecodeError::FilaTruncada);
    }
    Ok(cells)
}

// ---------------------------------------------------------------------------
// Whole blob
// ---------------------------------------------------------------------------

/// Rows from segments `1..k` that parse against `fields`, and the count of those that do not.
pub open spec fn spec_rows(fields: Seq<(Seq<char>, u8)>, segs: Seq<Seq<u8>>, k: int) -> (
    Seq<Seq<(Seq<char>, SlValue)>>,
    int,
)
    decreases k,
{
    if k <= 1 {
        (seq![], 0)
    } else {
        let (rs, sk) = spec_rows(fields, segs, k - 1);
        match spec_parse_row(fields, segs[k - 1]) {
            Ok(r) => (rs.push(r), sk),
            Err(_) => (rs, sk + 1),
        }
    }
}

/// The decoding of a blob: a table when the first of at least two segments is
/// a non-empty header and at least one later segment is a row of it; the raw
/// segments otherwise.
pub open spec fn spec_decode(blob: Seq<u8>) -> Result<DecodedView, TnbpDecodeError> {
    match spec_split_from(blob, 0) {
        Err(e) => Err(e),
        Ok(segs) => {
            let raw = DecodedView::RawGammaSegments { segments: segs };
            if segs.len() < 2 {
                Ok(raw)
            } else {
                match spec_header_from(segs[0], 0) {
                    Err(_) => Ok(raw),
                    Ok(f) => {
                        if f.len() == 0 {
                            Ok(raw)
                        } else {
                            let (rows, sk) = spec_rows(f, segs, segs.len() as int);
                            if rows.len() == 0 {
                                Ok(raw)
                            } else {
                                Ok(DecodedView::ChTable { fields: f, rows, skipped_rows: sk })
                            }
                        }
                    },
                }
            }
        },
    }
}

fn raw_segments(segments: &Vec<&[u8]>) -> (r: TnbpDecoded)
    ensures
        r@ == (DecodedView::RawGammaSegments { segments: slices_view(segments@) }),
{
    let mut out: Vec<Vec<u8>> = Vec::new();
    let mut i: usize = 0;
    while i < segments.len()
        invariant
            i <= segments@.len(),
            out@.map_values(|v: Vec<u8>| v@) =~= slices_view(segments@).take(i as int),
        decreases segments@.len() - i,
    {
        let v = vstd::slice::slice_to_vec(segments[i]);
        proof {
            assert(out@.push(v).map_values(|v: Vec<u8>| v@) =~= out@.map_values(|v: Vec<u8>| v@).push(v@));
            assert(slices_view(segments@).take(i + 1) =~= slices_view(segments@).take(i as int).push(segments@[i as int]@));
        }
        out.push(v);
        i = i + 1;
    }
    assert(slices_view(segments@).take(i as int) =~= slices_view(segments@));
    TnbpDecoded::RawGammaSegments { segments: out }
}

/// Decodes a blob: as a table when it reads as one (see `spec_decode`), as
/// raw segments otherwise. Fails only when the segments cannot be split.
pub fn decode_tnbp_blob(blob: &[u8]) -> (r: Result<TnbpDecoded, TnbpDecodeError>)
    ensures
        match (r, spec_decode(blob@)) {
            (Ok(d), Ok(v)) => d@ == v,
            (Err(e), Err(f)) => e == f,
            _ => false,
        },
{
    let segments = match split_sl_gamma_segments(blob) {
        Ok(s) => s,
        Err(e) => return Err(e),
    };
    let ghost segs = slices_view(segments@);
    if segments.len() < 2 {
        return Ok(raw_segments(&segments));
    }
    let fields = match parse_sl_table_header(segments[0]) {
        Ok(f) => f,
        Err(_) => return Ok(raw_segments(&segments)),
    };
    if fields.len() == 0 {
        return Ok(raw_segments(&segments));
    }
    let ghost fv = fields_view(fields@);
    let mut rows: Vec<Vec<(String, SlPrimitive)>> = Vec::new();
    let mut skipped_rows: usize = 0;
    let mut i: usize = 1;
    assert(rows@.map_values(|r: Vec<(String, SlPrimitive)>| row_view(r@)) =~= seq![]);
    while i < segments.len()
        invariant
            1 <= i <= segments@.len(),
            segs == slices_view(segments@),
            fv == fields_view(fields@),
            skipped_rows <= i,
            spec_rows(fv, segs, i as int) == (rows@.map_values(|r: Vec<(String, SlPrimitive)>| row_view(r@)), skipped_rows as int),
        decreases segments@.len() - i,
    {
        match parse_row(&fields, segments[i]) {
            Ok(r) => {
                proof {
                    assert(rows@.push(r).map_values(|r: Vec<(String, SlPrimitive)>| row_view(r@))
                        =~= rows@.map_values(|r: Vec<(String, SlPrimitive)>| row_view(r@)).push(row_view(r@)));
                }
                rows.push(r);
            },
            Err(_) => {
                skipped_rows = skipped_rows + 1;
            },
        }
        i = i + 1;
    }
    if rows.len() == 0 {
        return Ok(raw_segments(&segments));
    }
    Ok(TnbpDecoded::ChTable { fields, rows, skipped_rows })
}

// ---------------------------------------------------------------------------
// Tunnel records
// ---------------------------------------------------------------------------

/// The value of the last cell named `key` among the first `k` cells.
pub open spec fn spec_lookup(row: Seq<(Seq<char>, SlValue)>, key: Seq<char>, k: int) -> Option<SlValue>
    decreases k,
{
    if k <= 0 {
        None
    } else if row[k - 1].0 == key {
        Some(row[k - 1].1)
    } else {
        spec_lookup(row, key, k - 1)
    }
}

/// The value of the last cell named `key` in the row.
pub open spec fn spec_cell(row: Seq<(Seq<char>, SlValue)>, key: Seq<char>) -> Option<SlValue> {
    spec_lookup(row, key, row.len() as int)
}

pub open spec fn spec_u32_of(v: Option<SlValue>) -> Option<u32> {
    match v {
        Some(SlValue::U32(x)) => Some(x),
        Some(SlValue::I32(x)) => if x >= 0 { Some(x as u32) } else { None },
        _ => None,
    }
}

pub open spec fn spec_u8_of(v: Option<SlValue>) -> Option<u8> {
    match v {
        Some(SlValue::U8(x)) => Some(x),
        Some(SlValue::I8(x)) => if x >= 0 { Some(x as u8) } else { None },
        _ => None,
    }
}

pub open spec fn spec_bool_of(v: Option<SlValue>) -> Option<bool> {
    match v {
        Some(SlValue::I8(x)) => Some(x != 0),
        Some(SlValue::U8(x)) => Some(x != 0),
        _ => None,
    }
}

/// The tunnel a row describes: it needs `tile_n`, `tile_s` (32-bit, not
/// negative) and `height` (8-bit, not negative); `is_chunnel` defaults to
/// false; `style_n` and `style_s` are optional.
pub open spec fn spec_tunnel_of_row(row: Seq<(Seq<char>, SlValue)>) -> Option<JgrTunnelRecord> {
    let tn = spec_u32_of(spec_cell(row, "tile_n"@));
    let ts = spec_u32_of(spec_cell(row, "tile_s"@));
    let h = spec_u8_of(spec_cell(row, "height"@));
    if tn is None || ts is None || h is None {
        None
    } else {
        Some(
            JgrTunnelRecord {
                tile_n: tn->0,
                tile_s: ts->0,
                height: h->0,
                is_chunnel: match spec_bool_of(spec_cell(row, "is_chunnel"@)) {
                    Some(b) => b,
                    None => false,
                },
                style_n: spec_u8_of(spec_cell(row, "style_n"@)),
                style_s: spec_u8_of(spec_cell(row, "style_s"@)),
            },
        )
    }
}

/// The tunnels of the first `k` rows, in row order; rows that describe none are skipped.
pub open spec fn spec_tunnels(rows: Seq<Seq<(Seq<char>, SlValue)>>, k: int) -> Seq<JgrTunnelRecord>
    decreases k,
{
    if k <= 0 {
        seq![]
    } else {
        let prev = spec_tunnels(rows, k - 1);
        match spec_tunnel_of_row(rows[k - 1]) {
            Some(t) => prev.push(t),
            None => prev,
        }
    }
}

pub open spec fn spec_jgr_tunnels(d: DecodedView) -> Seq<JgrTunnelRecord> {
    match d {
        DecodedView::ChTable { rows, .. } => spec_tunnels(rows, rows.len() as int),
        DecodedView::RawGammaSegments { .. } => seq![],
    }
}

pub open spec fn opt_cell_view(r: Option<&SlPrimitive>) -> Option<SlValue> {
    match r {
        Some(p) => Some(p@),
        None => None,
    }
}

fn lookup_cell<'a>(row: &'a Vec<(String, SlPrimitive)>, key: &String) -> (r: Option<&'a SlPrimitive>)
    ensures
        opt_cell_view(r) == spec_cell(row_view(row@), key@),
{
    let ghost rv = row_view(row@);
    let mut i: usize = row.len();
    while i > 0
        invariant
            i <= row@.len(),
            rv == row_view(row@),
            spec_lookup(rv, key@, row@.len() as int) == spec_lookup(rv, key@, i as int),
        decreases i,
    {
        i = i - 1;
        if row[i].0.eq(key) {
            return Some(&row[i].1);
        }
    }
    None
}

fn u32_from_primitive(p: Option<&SlPrimitive>) -> (r: Option<u32>)
    ensures
        r == spec_u32_of(opt_cell_view(p)),
{
    match p {
        Some(SlPrimitive::U32(v)) => Some(*v),
        Some(SlPrimitive::I32(v)) => if *v >= 0 { Some(*v as u32) } else { None },
        _ => None,
    }
}

fn u8_from_primitive(p: Option<&SlPrimitive>) -> (r: Option<u8>)
    ensures
        r == spec_u8_of(opt_cell_view(p)),
{
    match p {
        Some(SlPrimitive::U8(v)) => Some(*v),
        Some(SlPrimitive::I8(v)) => if *v >= 0 { Some(*v as u8) } else { None },
        _ => None,
    }
}

fn bool_from_primitive(p: Option<&SlPrimitive>) -> (r: Option<bool>)
    ensures
        r == spec_bool_of(opt_cell_view(p)),
{
    match p {
        Some(SlPrimitive::I8(v)) => Some(*v != 0),
        Some(SlPrimitive::U8(v)) => Some(*v != 0),
        _ => None,
    }
}

/// The JGR tunnel records of a decoded table (empty for raw segments).
pub fn jgr_tunnels_from_decoded(decoded: &TnbpDecoded) -> (r: Vec<JgrTunnelRecord>)
    ensures
        r@ == spec_jgr_tunnels(decoded@),
{
    let mut out: Vec<JgrTunnelRecord> = Vec::new();
    match decoded {
        TnbpDecoded::RawGammaSegments { .. } => {
            return out;
        },
        TnbpDecoded::ChTable { rows, .. } => {
            let k_tile_n = String::from_str("tile_n");
            let k_tile_s = String::from_str("tile_s");
            let k_height = String::from_str("height");
            let k_chunnel = String::from_str("is_chunnel");
            let k_style_n = String::from_str("style_n");
            let k_style_s = String::from_str("style_s");
            let ghost rv = rows@.map_values(|r: Vec<(String, SlPrimitive)>| row_view(r@));
            let mut i: usize = 0;
            while i < rows.len()
                invariant
                    i <= rows@.len(),
                    rv == rows@.map_values(|r: Vec<(String, SlPrimitive)>| row_view(r@)),
                    out@ == spec_tunnels(rv, i as int),
                    k_tile_n@ == "tile_n"@,
                    k_tile_s@ == "tile_s"@,
                    k_height@ == "height"@,
                    k_chunnel@ == "is_chunnel"@,
                    k_style_n@ == "style_n"@,
                    k_style_s@ == "style_s"@,
                decreases rows@.len() - i,
            {
                let row = &rows[i];
                assert(rv[i as int] == row_view(row@));
                let tile_n = u32_from_primitive(lookup_cell(row, &k_tile_n));
                let tile_s = u32_from_primitive(lookup_cell(row, &k_tile_s));
                let height = u8_from_primitive(lookup_cell(row, &k_height));
                match (tile_n, tile_s, height) {
                    (Some(tile_n), Some(tile_s), Some(height)) => {
                        let is_chunnel = match bool_from_primitive(lookup_cell(row, &k_chunnel)) {
                            Some(b) => b,
                            None => false,
                        };
                        let style_n = u8_from_primitive(lookup_cell(row, &k_style_n));
                        let style_s = u8_from_primitive(lookup_cell(row, &k_style_s));
                        out.push(JgrTunnelRecord { tile_n, tile_s, height, is_chunnel, style_n, style_s });
                    },
                    _ => {},
                }
                i = i + 1;
            }
            out
        },
    }
}

/// Bytes a list of segments takes in a blob: each segment with at least
/// one gamma byte in front of it.
pub open spec fn segments_footprint(segs: Seq<Seq<u8>>) -> int
    decreases segs.len(),
{
    if segs.len() == 0 {
        0
    } else {
        segs[0].len() + 1 + segments_footprint(segs.drop_first())
    }
}

/// `s` is the piece of `blob` starting at `a`.
pub open spec fn piece_at(blob: Seq<u8>, a: int, s: Seq<u8>) -> bool {
    0 <= a && a + s.len() <= blob.len() && s == blob.subrange(a, a + s.len())
}

/// Every segment is a piece of `blob` at or after `off`.
pub open spec fn pieces_of(blob: Seq<u8>, off: int, segs: Seq<Seq<u8>>) -> bool {
    forall|i: int|
        #![trigger segs[i]]
        0 <= i < segs.len() ==> segs[i].len() <= blob.len() && exists|a: int| off <= a && #[trigger] piece_at(blob, a, segs[i])
}

/// Law: splitting from `off` yields segments that, with a gamma byte each
/// and the terminating zero gamma, fit in the rest of the blob, and each
/// segment is a piece of the blob at or after `off`.
pub proof fn lemma_split_fits(blob: Seq<u8>, off: int)
    requires
        0 <= off,
    ensures
        spec_split_from(blob, off) matches Ok(segs) ==> {
            &&& off + segments_footprint(segs) + 1 <= blob.len()
            &&& pieces_of(blob, off, segs)
        },
    decreases blob.len() - off,
{
    let (g, o) = spec_read_gamma(blob, off);
    lemma_gamma_advances(blob, off);
    match g {
        Err(e) => {
            assert(spec_split_from(blob, off) == Err::<Seq<Seq<u8>>, TnbpDecodeError>(e));
        },
        Ok(v) => {
            if v == 0 {
                assert(spec_split_from(blob, off) == Ok::<Seq<Seq<u8>>, TnbpDecodeError>(seq![]));
                assert(segments_footprint(seq![]) == 0);
            } else if o + (v - 1) > blob.len() {
                assert(spec_split_from(blob, off) is Err);
            } else {
                let next = o + (v - 1);
                lemma_split_fits(blob, next);
                match spec_split_from(blob, next) {
                    Ok(rest) => {
                        let first = blob.subrange(o, next);
                        let segs = seq![first] + rest;
                        assert(spec_split_from(blob, off) == Ok::<Seq<Seq<u8>>, TnbpDecodeError>(segs));
                        assert(segs.drop_first() =~= rest);
                        assert(segments_footprint(segs) == first.len() + 1 + segments_footprint(rest));
                        assert(off + segments_footprint(segs) + 1 <= blob.len());
                        assert forall|i: int| #![trigger segs[i]] 0 <= i < segs.len() implies segs[i].len() <= blob.len() && exists|a: int| off <= a && #[trigger] piece_at(blob, a, segs[i]) by {
                            if i == 0 {
                                assert(off <= o);
                                assert(first.len() == next - o);
                                assert(piece_at(blob, o, first));
                                assert(segs[0] == first);
                                assert(piece_at(blob, o, segs[i]));
                            } else {
                                assert(segs[i] == rest[i - 1]);
                                assert(pieces_of(blob, next, rest));
                                let a = choose|a: int| next <= a && #[trigger] piece_at(blob, a, rest[i - 1]);
                                assert(piece_at(blob, a, segs[i]));
                            }
                        }
                        assert(pieces_of(blob, off, segs));
                    },
                    Err(_) => {
                        assert(spec_split_from(blob, off) is Err);
                    },
                }
            }
        },
    }
}

proof fn lemma_rows_count(fields: Seq<(Seq<char>, u8)>, segs: Seq<Seq<u8>>, k: int)
    requires
        k >= 1,
    ensures
        spec_rows(fields, segs, k).0.len() + spec_rows(fields, segs, k).1 == k - 1,
    decreases k,
{
    if k > 1 {
        lemma_rows_count(fields, segs, k - 1);
    }
}

/// Law: decoding fails exactly when splitting does, with the same error; a
/// decoded table accounts for every segment after the header as a row or a
/// skipped row, and raw output is the segments themselves.
pub proof fn lemma_decode_accounts_for_segments(blob: Seq<u8>)
    ensures
        spec_decode(blob) is Err <==> spec_split_from(blob, 0) is Err,
        spec_decode(blob) matches Err(e) ==> spec_split_from(blob, 0) == Err::<Seq<Seq<u8>>, TnbpDecodeError>(e),
        spec_split_from(blob, 0) matches Ok(segs) ==> match spec_decode(blob) {
            Ok(DecodedView::ChTable { fields, rows, skipped_rows }) => {
                &&& fields.len() > 0
                &&& rows.len() > 0
                &&& rows.len() + skipped_rows == segs.len() - 1
            },
            Ok(DecodedView::RawGammaSegments { segments }) => segments == segs,
            Err(_) => false,
        },
{
    match spec_split_from(blob, 0) {
        Ok(segs) => {
            if segs.len() >= 2 {
                match spec_header_from(segs[0], 0) {
                    Ok(f) => {
                        lemma_rows_count(f, segs, segs.len() as int);
                    },
                    Err(_) => {},
                }
            }
        },
        Err(_) => {},
    }
}

/// At most one tunnel per row among the first `k`.
proof fn lemma_tunnels_bounded(rows: Seq<Seq<(Seq<char>, SlValue)>>, k: int)
    requires
        0 <= k,
    ensures
        spec_tunnels(rows, k).len() <= k,
    decreases k,
{
    if k > 0 {
        lemma_tunnels_bounded(rows, k - 1);
    }
}

/// Law: raw segments hold no tunnels; a table gives at most one tunnel per
/// row.
pub proof fn lemma_tunnels_at_most_one_per_row(d: DecodedView)
    ensures
        match d {
            DecodedView::ChTable { rows, .. } => spec_jgr_tunnels(d).len() <= rows.len(),
            DecodedView::RawGammaSegments { .. } => spec_jgr_tunnels(d).len() == 0,
        },
{
    match d {
        DecodedView::ChTable { rows, .. } => lemma_tunnels_bounded(rows, rows.len() as int),
        DecodedView::RawGammaSegments { .. } => {},
    }
}

/// Where each segment split from `off` starts in the blob.
pub open spec fn split_starts(blob: Seq<u8>, off: int) -> Seq<int>
    decreases blob.len() - off,
{
    let (g, o) = spec_read_gamma(blob, off);
    match g {
        Err(_) => seq![],
        Ok(v) => {
            if v == 0 || o + (v - 1) > blob.len() {
                seq![]
            } else {
                proof {
                    lemma_gamma_advances(blob, off);
                }
                seq![o] + split_starts(blob, o + (v - 1))
            }
        },
    }
}

/// The segments are the pieces of `blob` at `starts`, in order, each after
/// a gamma byte past the end of the one before, and a byte for the
/// terminating gamma follows the last.
pub open spec fn slices_in_order(blob: Seq<u8>, off: int, segs: Seq<Seq<u8>>, starts: Seq<int>) -> bool {
    &&& starts.len() == segs.len()
    &&& forall|i: int| #![trigger starts[i]] 0 <= i < segs.len() ==> {
        &&& off < starts[i]
        &&& starts[i] + segs[i].len() < blob.len()
        &&& segs[i] == blob.subrange(starts[i], starts[i] + segs[i].len())
    }
    &&& forall|i: int| #![trigger starts[i]] 0 <= i < segs.len() - 1 ==> starts[i] + segs[i].len() < starts[i + 1]
}

/// Law: the segments split from `off` are disjoint pieces of the blob, in
/// order, each preceded by its gamma, with the terminating gamma after the
/// last.
pub proof fn lemma_split_slices_in_order(blob: Seq<u8>, off: int)
    requires
        0 <= off,
    ensures
        spec_split_from(blob, off) matches Ok(segs) ==> slices_in_order(blob, off, segs, split_starts(blob, off)),
    decreases blob.len() - off,
{
    let (g, o) = spec_read_gamma(blob, off);
    lemma_gamma_advances(blob, off);
    match g {
        Err(e) => {
            assert(spec_split_from(blob, off) == Err::<Seq<Seq<u8>>, TnbpDecodeError>(e));
        },
        Ok(v) => {
            if v == 0 {
                assert(spec_split_from(blob, off) == Ok::<Seq<Seq<u8>>, TnbpDecodeError>(seq![]));
                assert(split_starts(blob, off) == Seq::<int>::empty());
            } else if o + (v - 1) > blob.len() {
                assert(spec_split_from(blob, off) is Err);
            } else {
                let next = o + (v - 1);
                lemma_split_slices_in_order(blob, next);
                lemma_split_fits(blob, next);
                match spec_split_from(blob, next) {
                    Ok(rest) => {
                        let first = blob.subrange(o, next);
                        let segs = seq![first] + rest;
                        let rs = split_starts(blob, next);
                        let starts = seq![o] + rs;
                        assert(spec_split_from(blob, off) == Ok::<Seq<Seq<u8>>, TnbpDecodeError>(segs));
                        assert(split_starts(blob, off) == starts);
                        assert(slices_in_order(blob, next, rest, rs));
                        assert(next + segments_footprint(rest) + 1 <= blob.len());
                        assert forall|i: int| #![trigger starts[i]] 0 <= i < segs.len() implies {
                            &&& off < starts[i]
                            &&& starts[i] + segs[i].len() < blob.len()
                            &&& segs[i] == blob.subrange(starts[i], starts[i] + segs[i].len())
                        } by {
                            if i == 0 {
                                assert(segs[0] == first);
                                assert(starts[0] == o);
                                if rest.len() > 0 {
                                    assert(rs[0] > next);
                                    assert(rs[0] + rest[0].len() < blob.len());
                                } else {
                                    assert(segments_footprint(rest) == 0);
                                }
                            } else {
                                assert(segs[i] == rest[i - 1]);
                                assert(starts[i] == rs[i - 1]);
                            }
                        }
                        assert forall|i: int| #![trigger starts[i]] 0 <= i < segs.len() - 1 implies starts[i] + segs[i].len()
                            < starts[i + 1] by {
                            if i == 0 {
                                assert(starts[1] == rs[0]);
                                assert(rs[0] > next);
                            } else {
                                assert(starts[i] == rs[i - 1]);
                                assert(starts[i + 1] == rs[i]);
                                assert(segs[i] == rest[i - 1]);
                            }
                        }
                    },
                    Err(_) => {
                        assert(spec_split_from(blob, off) is Err);
                    },
                }
            }
        },
    }
}

/// A row holds one cell per field, named after it, in header order.
pub open spec fn row_follows_header(fields: Seq<(Seq<char>, u8)>, row: Seq<(Seq<char>, SlValue)>) -> bool {
    &&& row.len() == fields.len()
    &&& forall|i: int| 0 <= i < row.len() ==> (#[trigger] row[i]).0 == fields[i].0
}

proof fn lemma_cells_follow_fields(fields: Seq<(Seq<char>, u8)>, payload: Seq<u8>, k: int)
    requires
        0 <= k <= fields.len(),
    ensures
        spec_cells(fields, payload, k).0 matches Ok(cs) ==> cs.len() == k && forall|i: int| 0 <= i < k ==> (#[trigger] cs[i]).0 == fields[i].0,
    decreases k,
{
    if k > 0 {
        lemma_cells_follow_fields(fields, payload, k - 1);
        let (r, o) = spec_cells(fields, payload, k - 1);
        match r {
            Ok(cs) => {
                let (p, o2) = spec_read_primitive(fields[k - 1].1, payload, o);
                match p {
                    Ok(v) => {
                        let ncs = cs.push((fields[k - 1].0, v));
                        assert forall|i: int| 0 <= i < k implies (#[trigger] ncs[i]).0 == fields[i].0 by {
                            if i < k - 1 {
                                assert(ncs[i] == cs[i]);
                            }
                        }
                    },
                    Err(_) => {},
                }
            },
            Err(_) => {},
        }
    }
}

proof fn lemma_rows_follow_header(fields: Seq<(Seq<char>, u8)>, segs: Seq<Seq<u8>>, k: int)
    ensures
        forall|j: int| 0 <= j < spec_rows(fields, segs, k).0.len() ==> row_follows_header(fields, #[trigger] spec_rows(fields, segs, k).0[j]),
    decreases k,
{
    if k > 1 {
        lemma_rows_follow_header(fields, segs, k - 1);
        lemma_cells_follow_fields(fields, segs[k - 1], fields.len() as int);
        let (rs, sk) = spec_rows(fields, segs, k - 1);
        match spec_parse_row(fields, segs[k - 1]) {
            Ok(r) => {
                let nrs = rs.push(r);
                assert(row_follows_header(fields, r));
                assert forall|j: int| 0 <= j < nrs.len() implies row_follows_header(fields, #[trigger] nrs[j]) by {
                    if j < rs.len() {
                        assert(nrs[j] == rs[j]);
                    }
                }
            },
            Err(_) => {},
        }
    }
}

/// Law: every row of a decoded table holds one cell per header field, in
/// header order.
pub proof fn lemma_decoded_rows_follow_header(blob: Seq<u8>)
    ensures
        spec_decode(blob) matches Ok(DecodedView::ChTable { fields, rows, .. }) ==> forall|j: int|
            0 <= j < rows.len() ==> row_follows_header(fields, #[trigger] rows[j]),
{
    match spec_split_from(blob, 0) {
        Ok(segs) => {
            if segs.len() >= 2 {
                match spec_header_from(segs[0], 0) {
                    Ok(f) => {
                        lemma_rows_follow_header(f, segs, segs.len() as int);
                    },
                    Err(_) => {},
                }
            }
        },
        Err(_) => {},
    }
}

/// Rows among the first `k` that give a tunnel, in order.
pub open spec fn tunnel_rows(rows: Seq<Seq<(Seq<char>, SlValue)>>, k: int) -> Seq<int>
    decreases k,
{
    if k <= 0 {
        seq![]
    } else if spec_tunnel_of_row(rows[k - 1]) is Some {
        tunnel_rows(rows, k - 1).push(k - 1)
    } else {
        tunnel_rows(rows, k - 1)
    }
}

/// Law: the tunnels of the first `k` rows are, in row order, one record
/// for each row that gives one; every other row is skipped.
pub proof fn lemma_tunnels_in_row_order(rows: Seq<Seq<(Seq<char>, SlValue)>>, k: int)
    requires
        0 <= k <= rows.len(),
    ensures
        ({
            let t = spec_tunnels(rows, k);
            let ix = tunnel_rows(rows, k);
            &&& t.len() == ix.len()
            &&& forall|m: int| 0 <= m < ix.len() ==> 0 <= #[trigger] ix[m] < k && spec_tunnel_of_row(rows[ix[m]]) == Some(t[m])
            &&& forall|m1: int, m2: int| 0 <= m1 < m2 < ix.len() ==> #[trigger] ix[m1] < #[trigger] ix[m2]
            &&& forall|j: int| 0 <= j < k ==> (spec_tunnel_of_row(#[trigger] rows[j]) is Some <==> ix.contains(j))
        }),
    decreases k,
{
    if k > 0 {
        lemma_tunnels_in_row_order(rows, k - 1);
        let t0 = spec_tunnels(rows, k - 1);
        let ix0 = tunnel_rows(rows, k - 1);
        let t = spec_tunnels(rows, k);
        let ix = tunnel_rows(rows, k);
        assert forall|j: int| 0 <= j < k implies (spec_tunnel_of_row(#[trigger] rows[j]) is Some <==> ix.contains(j)) by {
            if j < k - 1 {
                assert(ix0.contains(j) ==> ix.contains(j)) by {
                    if ix0.contains(j) {
                        let m = choose|m: int| 0 <= m < ix0.len() && ix0[m] == j;
                        assert(ix[m] == j);
                    }
                }
                assert(ix.contains(j) ==> ix0.contains(j)) by {
                    if ix.contains(j) {
                        let m = choose|m: int| 0 <= m < ix.len() && ix[m] == j;
                        if m < ix0.len() {
                            assert(ix0[m] == j);
                        }
                    }
                }
            } else {
                if spec_tunnel_of_row(rows[j]) is Some {
                    assert(ix[ix.len() - 1] == j);
                } else {
                    assert(ix == ix0);
                }
            }
        }
    }
}

/// A 16-bit cell is stored big-endian: read at `off`, it is
/// `row[off] * 256 + row[off + 1]` (for a signed cell, that word read in
/// two's complement), and reading moves two bytes on; with fewer than two
/// bytes left the row is truncated and the offset stays.
pub proof fn lemma_sixteen_bit_cells_are_big_endian(ft: u8, row: Seq<u8>, off: int)
    requires
        ft == SLE_FILE_I16 || ft == SLE_FILE_U16 || ft == SLE_FILE_STRINGID,
        0 <= off,
    ensures
        off + 2 <= row.len() ==> ({
            let w: int = row[off] as int * 256 + row[off + 1] as int;
            let (r, o) = spec_read_primitive(ft, row, off);
            &&& o == off + 2
            &&& ft == SLE_FILE_U16 ==> (r matches Ok(SlValue::U16(x)) && x as int == w)
            &&& ft == SLE_FILE_STRINGID ==> (r matches Ok(SlValue::StringId(x)) && x as int == w)
            &&& ft == SLE_FILE_I16 ==> (r matches Ok(SlValue::I16(x)) && x as int == (if w < 32768 {
                w
            } else {
                w - 65536
            }))
        }),
        off + 2 > row.len() ==> spec_read_primitive(ft, row, off) == (
            Err::<SlValue, TnbpDecodeError>(TnbpDecodeError::Truncado),
            off,
        ),
{
    if off + 2 <= row.len() {
        let hi: u8 = row[off];
        let lo: u8 = row[off + 1];
        let u: u16 = (hi as int * 256 + lo as int) as u16;
        assert(u as int == hi as int * 256 + lo as int);
        assert(u < 32768 ==> (u as i16) as i32 == u as i32) by (bit_vector);
        assert(u >= 32768 ==> (u as i16) as i32 + 65536 == u as i32) by (bit_vector);
    }
}

/// A 32-bit cell is stored big-endian too: read at `off`, it is
/// `row[off] * 2^24 + row[off + 1] * 2^16 + row[off + 2] * 2^8 + row[off + 3]`
/// (for a signed cell, that word read in two's complement), and reading moves
/// four bytes on.
pub proof fn lemma_thirty_two_bit_cells_are_big_endian(ft: u8, row: Seq<u8>, off: int)
    requires
        ft == SLE_FILE_I32 || ft == SLE_FILE_U32,
        0 <= off,
        off + 4 <= row.len(),
    ensures
        ({
            let w: int = row[off] as int * 0x100_0000 + row[off + 1] as int * 0x1_0000 + row[off + 2] as int
                * 0x100 + row[off + 3] as int;
            let (r, o) = spec_read_primitive(ft, row, off);
            &&& o == off + 4
            &&& ft == SLE_FILE_U32 ==> (r matches Ok(SlValue::U32(x)) && x as int == w)
            &&& ft == SLE_FILE_I32 ==> (r matches Ok(SlValue::I32(x)) && x as int == (if w < 0x8000_0000 {
                w
            } else {
                w - 0x1_0000_0000
            }))
        }),
{
    let h: int = row[off] as int * 256 + row[off + 1] as int;
    let l: int = row[off + 2] as int * 256 + row[off + 3] as int;
    assert(h < 65536 && l < 65536);
    let u: u32 = (h * 65536 + l) as u32;
    assert(u as int == h * 65536 + l);
    assert(u < 0x8000_0000 ==> (u as i32) as i64 == u as i64) by (bit_vector);
    assert(u >= 0x8000_0000 ==> (u as i32) as i64 + 0x1_0000_0000 == u as i64) by (bit_vector);
}

} // verus!
