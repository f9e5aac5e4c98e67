//! Parsing status frames: one frame at a known place, or every frame that a
//! reply buffer holds.

use vstd::prelude::*;

use super::frame::{frame, le16, le32};
use super::instruction;

verus! {

/// Why a status frame was refused.
#[derive(Debug, Clone, Copy, PartialEq, Eq, Structural)]
pub enum ParseError {
    /// Fewer bytes than a frame of the expected width.
    TooShort,
    /// The first four bytes are not `FF FF FD 00`.
    InvalidHeader,
    /// The instruction byte is not the status code.
    InvalidInstruction,
    /// The length field does not match the expected width.
    InvalidLength,
    /// The actuator reported this nonzero error code.
    MotorError(u8),
}

/// `FF FF FD 00` starts at `i`.
pub open spec fn header_at(d: Seq<u8>, i: int) -> bool {
    &&& 0 <= i
    &&& i + 4 <= d.len()
    &&& d[i] == 0xFF
    &&& d[i + 1] == 0xFF
    &&& d[i + 2] == 0xFD
    &&& d[i + 3] == 0x00
}

/// The little-endian 16-bit value at `i`.
pub open spec fn u16_at(d: Seq<u8>, i: int) -> u16 {
    (d[i] as u16) | ((d[i + 1] as u16) << 8u16)
}

/// The little-endian two's-complement 16-bit value at `i`.
pub open spec fn i16_at(d: Seq<u8>, i: int) -> i16 {
    u16_at(d, i) as i16
}

/// The little-endian two's-complement 32-bit value at `i`.
pub open spec fn i32_at(d: Seq<u8>, i: int) -> i32 {
    ((d[i] as u32) | ((d[i + 1] as u32) << 8u32) | ((d[i + 2] as u32) << 16u32) | ((
    d[i + 3] as u32) << 24u32)) as i32
}

/// Total size of a status frame whose length field is `len_field`.
pub open spec fn status_size(len_field: u16) -> int {
    len_field + 7
}

/// A status frame with length field `len_field` starts at `i`: enough bytes
/// for it, the header, the status instruction and that length.
pub open spec fn status_frame_at(d: Seq<u8>, i: int, len_field: u16) -> bool {
    &&& 0 <= i
    &&& i + status_size(len_field) <= d.len()
    &&& header_at(d, i)
    &&& d[i + 7] == instruction::STATUS
    &&& u16_at(d, i + 5) == len_field
}

/// The checks shared by every single-frame parse, in order: size, header,
/// instruction. On success: the id, the length field and the error byte.
pub open spec fn status_header(d: Seq<u8>, offset: int, min_len: int) -> Result<
    (u8, u16, u8),
    ParseError,
> {
    if offset + min_len > d.len() {
        Err(ParseError::TooShort)
    } else if !header_at(d, offset) {
        Err(ParseError::InvalidHeader)
    } else if d[offset + 7] != instruction::STATUS {
        Err(ParseError::InvalidInstruction)
    } else {
        Ok((d[offset + 4], u16_at(d, offset + 5), d[offset + 8]))
    }
}

/// Parse of a position reply (4 data bytes) at `offset`: the id and the
/// position. The error byte is not looked at.
pub open spec fn position_reply(d: Seq<u8>, offset: int) -> Result<(u8, i32), ParseError> {
    match status_header(d, offset, 15) {
        Err(e) => Err(e),
        Ok((id, len, _)) => if len != 8 {
            Err(ParseError::InvalidLength)
        } else {
            Ok((id, i32_at(d, offset + 9)))
        },
    }
}

/// Parse of a one-byte reply at the start of `d`.
pub open spec fn byte_reply(d: Seq<u8>) -> Result<u8, ParseError> {
    match status_header(d, 0, 12) {
        Err(e) => Err(e),
        Ok((_, len, err)) => if len != 5 {
            Err(ParseError::InvalidLength)
        } else if err != 0 {
            Err(ParseError::MotorError(err))
        } else {
            Ok(d[9])
        },
    }
}

/// Parse of a two-byte signed reply at the start of `d`.
pub open spec fn word_reply(d: Seq<u8>) -> Result<i16, ParseError> {
    match status_header(d, 0, 13) {
        Err(e) => Err(e),
        Ok((_, len, err)) => if len != 6 {
            Err(ParseError::InvalidLength)
        } else if err != 0 {
            Err(ParseError::MotorError(err))
        } else {
            Ok(i16_at(d, 9))
        },
    }
}

/// Position replies found at the offsets below `n`, in offset order.
pub open spec fn scan_positions(d: Seq<u8>, n: int) -> Seq<(u8, i32)>
    decreases n,
{
    if n <= 0 {
        seq![]
    } else {
        let prev = scan_positions(d, n - 1);
        let i = n - 1;
        if status_frame_at(d, i, 8) {
            prev.push((d[i + 4], i32_at(d, i + 9)))
        } else {
            prev
        }
    }
}

/// One-byte replies found at the offsets below `n`, in offset order; those
/// with a nonzero error byte only where `keep_errors` holds.
pub open spec fn scan_bytes(d: Seq<u8>, n: int, keep_errors: bool) -> Seq<(u8, u8)>
    decreases n,
{
    if n <= 0 {
        seq![]
    } else {
        let prev = scan_bytes(d, n - 1, keep_errors);
        let i = n - 1;
        if status_frame_at(d, i, 5) && (keep_errors || d[i + 8] == 0) {
            prev.push((d[i + 4], d[i + 9]))
        } else {
            prev
        }
    }
}

/// Two-byte signed replies without error found at the offsets below `n`, in
/// offset order.
pub open spec fn scan_words(d: Seq<u8>, n: int) -> Seq<(u8, i16)>
    decreases n,
{
    if n <= 0 {
        seq![]
    } else {
        let prev = scan_words(d, n - 1);
        let i = n - 1;
        if status_frame_at(d, i, 6) && d[i + 8] == 0 {
            prev.push((d[i + 4], i16_at(d, i + 9)))
        } else {
            prev
        }
    }
}

/// The little-endian 16-bit value at `i`.
fn read_u16_le(data: &[u8], i: usize) -> (r: u16)
    requires
        i + 2 <= data@.len(),
    ensures
        r == u16_at(data@, i as int),
{
    (data[i] as u16) | ((data[i + 1] as u16) << 8u16)
}

/// The little-endian two's-complement 32-bit value at `i`.
fn read_i32_le(data: &[u8], i: usize) -> (r: i32)
    requires
        i + 4 <= data@.len(),
    ensures
        r == i32_at(data@, i as int),
{
    ((data[i] as u32) | ((data[i + 1] as u32) << 8u32) | ((data[i + 2] as u32) << 16u32) | ((
    data[i + 3] as u32) << 24u32)) as i32
}

/// Whether the frame header starts at `i`.
fn is_header_at(data: &[u8], i: usize) -> (r: bool)
    ensures
        r == header_at(data@, i as int),
{
    i <= data.len() && data.len() - i >= 4 && data[i] == 0xFF && data[i + 1] == 0xFF && data[i
        + 2] == 0xFD && data[i + 3] == 0x00
}

/// Whether a status frame with length field `len_field` starts at `i`.
fn is_status_frame_at(data: &[u8], i: usize, len_field: u16) -> (r: bool)
    requires
        len_field >= 2,
    ensures
        r == status_frame_at(data@, i as int, len_field),
{
    if i > data.len() || data.len() - i < len_field as usize + 7 {
        return false;
    }
    is_header_at(data, i) && data[i + 7] == instruction::STATUS && read_u16_le(data, i + 5)
        == len_field
}

/// Checks size, header and instruction of the frame at `offset`, which
/// must hold at least `min_len` bytes. Returns the id, the length field, the
/// error byte and the index where the data starts.
fn validate_header(data: &[u8], offset: usize, min_len: usize) -> (r: Result<
    (u8, u16, u8, usize),
    ParseError,
>)
    requires
        min_len >= 9,
    ensures
        match r {
            Ok((id, len, err, start)) => status_header(data@, offset as int, min_len as int)
                == Ok::<(u8, u16, u8), ParseError>((id, len, err)) && start == offset + 9,
            Err(e) => status_header(data@, offset as int, min_len as int) == Err::<
                (u8, u16, u8),
                ParseError,
            >(e),
        },
{
    if offset > data.len() || data.len() - offset < min_len {
        return Err(ParseError::TooShort);
    }
    if !is_header_at(data, offset) {
        return Err(ParseError::InvalidHeader);
    }
    let id = data[offset + 4];
    let length = read_u16_le(data, offset + 5);
    if data[offset + 7] != instruction::STATUS {
        return Err(ParseError::InvalidInstruction);
    }
    let error = data[offset + 8];
    Ok((id, length, error, offset + 9))
}

/// Parses the position reply that starts at `offset`: `(id, raw position)`.
/// An offset with fewer than 15 bytes after it, or past the end, is `TooShort`.
pub fn parse_status_packet(data: &[u8], offset: usize) -> (r: Result<(u8, i32), ParseError>)
    ensures
        r == position_reply(data@, offset as int),
{
    let (id, length, _error, start) = match validate_header(data, offset, 15) {
        Ok(fields) => fields,
        Err(e) => return Err(e),
    };
    if length != 8 {
        return Err(ParseError::InvalidLength);
    }
    let pos = read_i32_le(data, start);
    Ok((id, pos))
}

/// Parses a one-byte reply (a temperature, an error status) at the start of
/// `data`.
pub fn parse_status_packet_1byte(data: &[u8]) -> (r: Result<u8, ParseError>)
    ensures
        r == byte_reply(data@),
{
    let (_id, length, error, start) = match validate_header(data, 0, 12) {
        Ok(fields) => fields,
        Err(e) => return Err(e),
    };
    if length != 5 {
        return Err(ParseError::InvalidLength);
    }
    if error != 0 {
        return Err(ParseError::MotorError(error));
    }
    Ok(data[start])
}

/// Parses a two-byte signed reply (a load) at the start of `data`.
pub fn parse_status_packet_2byte_signed(data: &[u8]) -> (r: Result<i16, ParseError>)
    ensures
        r == word_reply(data@),
{
    let (_id, length, error, start) = match validate_header(data, 0, 13) {
        Ok(fields) => fields,
        Err(e) => return Err(e),
    };
    if length != 6 {
        return Err(ParseError::InvalidLength);
    }
    if error != 0 {
        return Err(ParseError::MotorError(error));
    }
    Ok(read_u16_le(data, start) as i16)
}

/// Every position reply in `data`, as `(id, raw position)`, found by trying
/// each offset in turn, so that a missing or garbled reply costs only itself.
pub fn parse_position_packets(data: &[u8]) -> (r: Vec<(u8, i32)>)
    ensures
        r@ == scan_positions(data@, data@.len() as int),
{
    let mut results: Vec<(u8, i32)> = Vec::new();
    let mut i: usize = 0;
    while i < data.len()
        invariant
            i <= data@.len(),
            results@ == scan_positions(data@, i as int),
        decreases data@.len() - i,
    {
        if is_status_frame_at(data, i, 8) {
            results.push((data[i + 4], read_i32_le(data, i + 9)));
        }
        i = i + 1;
    }
    results
}

fn scan_1byte(data: &[u8], keep_errors: bool) -> (r: Vec<(u8, u8)>)
    ensures
        r@ == scan_bytes(data@, data@.len() as int, keep_errors),
{
    let mut results: Vec<(u8, u8)> = Vec::new();
    let mut i: usize = 0;
    while i < data.len()
        invariant
            i <= data@.len(),
            results@ == scan_bytes(data@, i as int, keep_errors),
        decreases data@.len() - i,
    {
        if is_status_frame_at(data, i, 5) && (keep_errors || data[i + 8] == 0) {
            results.push((data[i + 4], data[i + 9]));
        }
        i = i + 1;
    }
    results
}

/// Every one-byte reply without error in `data`, as `(id, value)`; replies
/// whose error byte is nonzero are left out.
pub fn parse_1byte_packets(data: &[u8]) -> (r: Vec<(u8, u8)>)
    ensures
        r@ == scan_bytes(data@, data@.len() as int, false),
{
    scan_1byte(data, false)
}

/// Every one-byte reply in `data`, as `(id, value)`, with or without error.
pub fn parse_1byte_packets_with_errors(data: &[u8]) -> (r: Vec<(u8, u8)>)
    ensures
        r@ == scan_bytes(data@, data@.len() as int, true),
{
    scan_1byte(data, true)
}

/// Every two-byte signed reply without error in `data`, as `(id, value)`.
pub fn parse_2byte_signed_packets(data: &[u8]) -> (r: Vec<(u8, i16)>)
    ensures
        r@ == scan_words(data@, data@.len() as int),
{
    let mut results: Vec<(u8, i16)> = Vec::new();
    let mut i: usize = 0;
    while i < data.len()
        invariant
            i <= data@.len(),
            results@ == scan_words(data@, i as int),
        decreases data@.len() - i,
    {
        if is_status_frame_at(data, i, 6) && data[i + 8] == 0 {
            results.push((data[i + 4], read_u16_le(data, i + 9) as i16));
        }
        i = i + 1;
    }
    results
}

/// A status frame as an actuator sends it: the error byte, then the data.
pub open spec fn status_frame(id: u8, err: u8, data: Seq<u8>) -> Seq<u8> {
    frame(id, instruction::STATUS, seq![err] + data)
}

/// Offsets at which no position reply starts add nothing to the scan.
proof fn lemma_scan_positions_skip(d: Seq<u8>, m: int, n: int)
    requires
        0 <= m <= n,
        forall|j: int| m <= j < n ==> !status_frame_at(d, j, 8),
    ensures
        scan_positions(d, n) == scan_positions(d, m),
    decreases n - m,
{
    if n > m {
        lemma_scan_positions_skip(d, m, n - 1);
    }
}

/// Decoding the bytes of `le32(v)` gives `v` back.
proof fn lemma_le32_round_trip(v: i32)
    ensures
        i32_at(le32(v), 0) == v,
{
    let u = v as u32;
    assert((((u as u8) as u32) | ((((u >> 8u32) as u8) as u32) << 8u32) | ((((u >> 16u32) as u8)
        as u32) << 16u32) | ((((u >> 24u32) as u8) as u32) << 24u32)) as i32 == v) by (bit_vector)
        requires
            u == v as u32,
    ;
}

/// The bytes of a status frame that carries a few data bytes.
proof fn lemma_status_frame_bytes(id: u8, err: u8, data: Seq<u8>)
    requires
        data.len() <= 8,
    ensures
        ({
            let f = status_frame(id, err, data);
            let len = (data.len() + 4) as u16;
            &&& f.len() == data.len() + 11
            &&& f[0] == 0xFF && f[1] == 0xFF && f[2] == 0xFD && f[3] == 0x00
            &&& f[4] == id
            &&& f[5] == len && f[6] == 0
            &&& f[7] == instruction::STATUS
            &&& f[8] == err
            &&& f.subrange(9, 9 + data.len() as int) == data
            &&& status_frame_at(f, 0, len)
        }),
{
    let f = status_frame(id, err, data);
    let len = (data.len() + 4) as u16;
    assert((len as u8) as u16 == len) by (bit_vector)
        requires
            len < 256u16,
    ;
    assert((len >> 8u16) as u8 == 0u8) by (bit_vector)
        requires
            len < 256u16,
    ;
    assert(((len as u8) as u16 | ((((len >> 8u16) as u8) as u16) << 8u16)) == len) by (bit_vector);
    assert(f.subrange(9, 9 + data.len() as int) =~= data);
}

/// The bytes of a position reply, one by one.
proof fn lemma_position_reply_bytes(id: u8, err: u8, v: i32)
    ensures
        ({
            let f = status_frame(id, err, le32(v));
            &&& f.len() == 15
            &&& f[0] == 0xFF && f[1] == 0xFF && f[2] == 0xFD && f[3] == 0x00
            &&& f[4] == id
            &&& f[5] == 8 && f[6] == 0
            &&& f[7] == instruction::STATUS
            &&& f[8] == err
            &&& status_frame_at(f, 0, 8)
            &&& i32_at(f, 9) == v
        }),
{
    let f = status_frame(id, err, le32(v));
    let len_field: u16 = 8;
    assert(len_field as u8 == 8u8) by (bit_vector)
        requires
            len_field == 8u16,
    ;
    assert((len_field >> 8u16) as u8 == 0u8) by (bit_vector)
        requires
            len_field == 8u16,
    ;
    assert(((8u8 as u16) | ((0u8 as u16) << 8u16)) == 8u16) by (bit_vector);
    assert(le16(len_field) =~= seq![8u8, 0u8]);
    lemma_le32_round_trip(v);
    assert(f.subrange(9, 13) =~= le32(v));
    assert(i32_at(f, 9) == i32_at(f.subrange(9, 13), 0));
}

/// A buffer that holds one position reply and nothing else yields its id and
/// position, and nothing more.
pub proof fn lemma_scan_single_position(id: u8, err: u8, v: i32)
    ensures
        ({
            let f = status_frame(id, err, le32(v));
            scan_positions(f, f.len() as int) == seq![(id, v)]
        }),
{
    let f = status_frame(id, err, le32(v));
    lemma_position_reply_bytes(id, err, v);
    lemma_scan_positions_skip(f, 1, 15);
    assert(scan_positions(f, 0) =~= Seq::<(u8, i32)>::empty());
    assert(scan_positions(f, 1) =~= seq![(id, v)]);
}

/// Two position replies back to back yield both, in order.
pub proof fn lemma_scan_two_positions(id1: u8, err1: u8, v1: i32, id2: u8, err2: u8, v2: i32)
    ensures
        ({
            let d = status_frame(id1, err1, le32(v1)) + status_frame(id2, err2, le32(v2));
            scan_positions(d, d.len() as int) == seq![(id1, v1), (id2, v2)]
        }),
{
    let f1 = status_frame(id1, err1, le32(v1));
    let f2 = status_frame(id2, err2, le32(v2));
    let d = f1 + f2;
    lemma_position_reply_bytes(id1, err1, v1);
    lemma_position_reply_bytes(id2, err2, v2);
    assert(d[0] == 0xFF && d[1] == 0xFF && d[2] == 0xFD && d[3] == 0x00);
    assert(d[4] == id1 && d[5] == 8 && d[6] == 0 && d[7] == instruction::STATUS);
    assert(d[9] == f1[9] && d[10] == f1[10] && d[11] == f1[11] && d[12] == f1[12]);
    assert(d[15] == 0xFF && d[16] == 0xFF && d[17] == 0xFD && d[18] == 0x00);
    assert(d[19] == id2 && d[20] == 8 && d[21] == 0 && d[22] == instruction::STATUS);
    assert(d[24] == f2[9] && d[25] == f2[10] && d[26] == f2[11] && d[27] == f2[12]);
    assert(u16_at(d, 5) == u16_at(f1, 5));
    assert(u16_at(d, 20) == u16_at(f2, 5));
    assert(i32_at(d, 9) == i32_at(f1, 9));
    assert(i32_at(d, 24) == i32_at(f2, 9));
    assert(status_frame_at(d, 0, 8));
    assert(status_frame_at(d, 15, 8));
    assert forall|j: int| 1 <= j < 15 implies !status_frame_at(d, j, 8) by {
        if 8 <= j < 12 {
            assert(d[j + 7] != instruction::STATUS);
        }
    }
    lemma_scan_positions_skip(d, 16, 30);
    lemma_scan_positions_skip(d, 1, 15);
    assert(scan_positions(d, 0) =~= Seq::<(u8, i32)>::empty());
    assert(scan_positions(d, 1) =~= seq![(id1, v1)]);
    assert(scan_positions(d, 16) =~= seq![(id1, v1), (id2, v2)]);
}

/// Bytes before a position reply that hold no `0xFF` (so no header can start
/// among them) do not hide the reply, nor add any.
pub proof fn lemma_scan_after_garbage(garbage: Seq<u8>, id: u8, err: u8, v: i32)
    requires
        forall|k: int| 0 <= k < garbage.len() ==> garbage[k] != 0xFF,
    ensures
        ({
            let d = garbage + status_frame(id, err, le32(v));
            scan_positions(d, d.len() as int) == seq![(id, v)]
        }),
{
    let f = status_frame(id, err, le32(v));
    let d = garbage + f;
    let g = garbage.len() as int;
    lemma_position_reply_bytes(id, err, v);
    assert(forall|k: int| 0 <= k < 15 ==> d[g + k] == f[k]);
    assert(i32_at(d, g + 9) == i32_at(f, 9));
    assert(status_frame_at(d, g, 8));
    assert forall|j: int| 0 <= j < g implies !status_frame_at(d, j, 8) by {
        assert(d[j] == garbage[j]);
    }
    lemma_scan_positions_skip(d, 0, g);
    lemma_scan_positions_skip(d, g + 1, g + 15);
    assert(scan_positions(d, g + 1) =~= seq![(id, v)]);
}

/// A buffer shorter than a position reply (a truncated one, say) yields
/// nothing.
pub proof fn lemma_scan_short_buffer(d: Seq<u8>)
    requires
        d.len() < 15,
    ensures
        scan_positions(d, d.len() as int) == Seq::<(u8, i32)>::empty(),
{
    lemma_scan_positions_skip(d, 0, d.len() as int);
    assert(scan_positions(d, 0) =~= Seq::<(u8, i32)>::empty());
}

/// A frame of a position reply's size whose instruction is not the status
/// code yields nothing.
pub proof fn lemma_scan_not_status(id: u8, instr: u8, params: Seq<u8>)
    requires
        instr != instruction::STATUS,
        params.len() == 5,
    ensures
        ({
            let f = frame(id, instr, params);
            scan_positions(f, f.len() as int) == Seq::<(u8, i32)>::empty()
        }),
{
    let f = frame(id, instr, params);
    assert(f[7] == instr);
    lemma_scan_positions_skip(f, 0, 15);
    assert(scan_positions(f, 0) =~= Seq::<(u8, i32)>::empty());
}

/// Offsets at which no one-byte reply is taken add nothing to the scan.
proof fn lemma_scan_bytes_skip(d: Seq<u8>, m: int, n: int, keep_errors: bool)
    requires
        0 <= m <= n,
        forall|j: int| m <= j < n ==> !status_frame_at(d, j, 5),
    ensures
        scan_bytes(d, n, keep_errors) == scan_bytes(d, m, keep_errors),
    decreases n - m,
{
    if n > m {
        lemma_scan_bytes_skip(d, m, n - 1, keep_errors);
    }
}

/// Offsets at which no two-byte reply starts add nothing to the scan.
proof fn lemma_scan_words_skip(d: Seq<u8>, m: int, n: int)
    requires
        0 <= m <= n,
        forall|j: int| m <= j < n ==> !status_frame_at(d, j, 6),
    ensures
        scan_words(d, n) == scan_words(d, m),
    decreases n - m,
{
    if n > m {
        lemma_scan_words_skip(d, m, n - 1);
    }
}

/// A buffer that holds one one-byte reply and nothing else yields its id and
/// value, except when the reply reports an error and errors are not kept.
pub proof fn lemma_scan_single_byte(id: u8, err: u8, value: u8, keep_errors: bool)
    ensures
        ({
            let f = status_frame(id, err, seq![value]);
            scan_bytes(f, f.len() as int, keep_errors) == if keep_errors || err == 0 {
                seq![(id, value)]
            } else {
                Seq::<(u8, u8)>::empty()
            }
        }),
{
    let f = status_frame(id, err, seq![value]);
    lemma_status_frame_bytes(id, err, seq![value]);
    assert(f[9] == f.subrange(9, 10)[0]);
    lemma_scan_bytes_skip(f, 1, 12, keep_errors);
    assert(scan_bytes(f, 0, keep_errors) =~= Seq::<(u8, u8)>::empty());
    if keep_errors || err == 0 {
        assert(scan_bytes(f, 1, keep_errors) =~= seq![(id, value)]);
    }
}

/// Decoding the bytes of `le16(w as u16)` as a signed value gives `w` back.
proof fn lemma_i16_round_trip(w: i16)
    ensures
        i16_at(le16(w as u16), 0) == w,
{
    let u = w as u16;
    assert((((u as u8) as u16) | ((((u >> 8u16) as u8) as u16) << 8u16)) as i16 == w) by (
    bit_vector)
        requires
            u == w as u16,
    ;
}

/// A buffer that holds one two-byte reply and nothing else yields its id and
/// signed value, or nothing when the reply reports an error.
pub proof fn lemma_scan_single_word(id: u8, err: u8, w: i16)
    ensures
        ({
            let f = status_frame(id, err, le16(w as u16));
            scan_words(f, f.len() as int) == if err == 0 {
                seq![(id, w)]
            } else {
                Seq::<(u8, i16)>::empty()
            }
        }),
{
    let data = le16(w as u16);
    let f = status_frame(id, err, data);
    lemma_status_frame_bytes(id, err, data);
    lemma_i16_round_trip(w);
    assert(f[9] == data[0] && f[10] == data[1]);
    assert(i16_at(f, 9) == i16_at(data, 0));
    lemma_scan_words_skip(f, 1, 13);
    assert(scan_words(f, 0) =~= Seq::<(u8, i16)>::empty());
    if err == 0 {
        assert(scan_words(f, 1) =~= seq![(id, w)]);
    }
}

} // verus!
