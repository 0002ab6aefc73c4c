//! Encode typed register cells to Modbus words and back.
//!
//! A `float32` cell is carried as its IEEE-754 binary32 bit pattern; the
//! conversion between engineering reals and raw cells happens outside this
//! module.

use vstd::prelude::*;
use crate::types::{DataType, Endianness};

verus! {

/// A typed register cell.
#[derive(Debug, Clone, Copy, PartialEq, Eq, Structural)]
pub enum CellValue {
    /// Unsigned 16-bit.
    U16(u16),
    /// Signed 16-bit.
    I16(i16),
    /// Unsigned 32-bit.
    U32(u32),
    /// IEEE-754 float32, held as its bit pattern.
    F32(u32),
}

impl CellValue {
    /// The data type of a cell, as a spec value.
    pub open spec fn kind(self) -> DataType {
        match self {
            CellValue::U16(_) => DataType::Uint16,
            CellValue::I16(_) => DataType::Int16,
            CellValue::U32(_) => DataType::Uint32,
            CellValue::F32(_) => DataType::Float32,
        }
    }

    /// Data type of this cell.
    pub fn data_type(self) -> (t: DataType)
        ensures
            t == self.kind(),
    {
        match self {
            CellValue::U16(_) => DataType::Uint16,
            CellValue::I16(_) => DataType::Int16,
            CellValue::U32(_) => DataType::Uint32,
            CellValue::F32(_) => DataType::Float32,
        }
    }
}

/// The two bytes of a word, exchanged.
pub open spec fn swap16(w: u16) -> u16 {
    ((w % 256) * 256 + w / 256) as u16
}

/// High word of a 32-bit value.
pub open spec fn hi16(v: u32) -> u16 {
    (v / 65536) as u16
}

/// Low word of a 32-bit value.
pub open spec fn lo16(v: u32) -> u16 {
    (v % 65536) as u16
}

/// A 32-bit value from its high and low words.
pub open spec fn join16(hi: u16, lo: u16) -> u32 {
    (hi * 65536 + lo) as u32
}

/// The two words of a 32-bit value in the order an endianness lays them out.
pub open spec fn pair_of(v: u32, e: Endianness) -> (u16, u16) {
    match e {
        Endianness::Big => (hi16(v), lo16(v)),
        Endianness::Little => (lo16(v), hi16(v)),
        Endianness::BigSwap => (swap16(hi16(v)), swap16(lo16(v))),
        Endianness::LittleSwap => (swap16(lo16(v)), swap16(hi16(v))),
    }
}

/// The 32-bit value that two words stand for under an endianness.
pub open spec fn value_of(w0: u16, w1: u16, e: Endianness) -> u32 {
    match e {
        Endianness::Big => join16(w0, w1),
        Endianness::Little => join16(w1, w0),
        Endianness::BigSwap => join16(swap16(w0), swap16(w1)),
        Endianness::LittleSwap => join16(swap16(w1), swap16(w0)),
    }
}

/// Two's-complement bits of a signed word.
pub open spec fn i16_bits(v: i16) -> u16 {
    (if v < 0 { v + 65536 } else { v as int }) as u16
}

/// Signed value of a word read as two's complement.
pub open spec fn bits_i16(w: u16) -> i16 {
    (if w >= 32768 { w - 65536 } else { w as int }) as i16
}

/// The words a cell occupies, in wire order.
pub open spec fn cell_words(cell: CellValue, e: Endianness) -> Seq<u16> {
    match cell {
        CellValue::U16(v) => seq![v],
        CellValue::I16(v) => seq![i16_bits(v)],
        CellValue::U32(v) => seq![pair_of(v, e).0, pair_of(v, e).1],
        CellValue::F32(v) => seq![pair_of(v, e).0, pair_of(v, e).1],
    }
}

/// Word `i` of a sequence, or zero past its end.
pub open spec fn word_at(ws: Seq<u16>, i: int) -> u16 {
    if 0 <= i < ws.len() { ws[i] } else { 0 }
}

/// The cell that a run of words decodes to; missing words count as zero.
pub open spec fn cell_of_words(ws: Seq<u16>, t: DataType, e: Endianness) -> CellValue {
    match t {
        DataType::Uint16 => CellValue::U16(word_at(ws, 0)),
        DataType::Int16 => CellValue::I16(bits_i16(word_at(ws, 0))),
        DataType::Uint32 => CellValue::U32(value_of(word_at(ws, 0), word_at(ws, 1), e)),
        DataType::Float32 => CellValue::F32(value_of(word_at(ws, 0), word_at(ws, 1), e)),
    }
}

/// Exchange the two bytes of a word.
pub fn swap_bytes(word: u16) -> (r: u16)
    ensures
        r == swap16(word),
{
    assert(((word << 8u16) | (word >> 8u16)) == ((word % 256) * 256 + word / 256) as u16)
        by (bit_vector);
    (word << 8u16) | (word >> 8u16)
}

/// Split a 32-bit value into two words under `endianness`.
pub fn u32_to_words(value: u32, endianness: Endianness) -> (r: [u16; 2])
    ensures
        r[0] == pair_of(value, endianness).0,
        r[1] == pair_of(value, endianness).1,
{
    assert((value >> 16u32) as u16 == (value / 65536) as u16) by (bit_vector);
    assert(value as u16 == (value % 65536) as u16) by (bit_vector);
    let hi = (value >> 16u32) as u16;
    let lo = value as u16;
    match endianness {
        Endianness::Big => [hi, lo],
        Endianness::Little => [lo, hi],
        Endianness::BigSwap => [swap_bytes(hi), swap_bytes(lo)],
        Endianness::LittleSwap => [swap_bytes(lo), swap_bytes(hi)],
    }
}

fn join_words(hi: u16, lo: u16) -> (r: u32)
    ensures
        r == join16(hi, lo),
{
    assert(((hi as u32) << 16u32) | (lo as u32) == (hi * 65536 + lo) as u32) by (bit_vector);
    ((hi as u32) << 16u32) | (lo as u32)
}

/// Join two words into a 32-bit value under `endianness`.
pub fn words_to_u32(words: [u16; 2], endianness: Endianness) -> (r: u32)
    ensures
        r == value_of(words[0], words[1], endianness),
{
    let (hi, lo) = match endianness {
        Endianness::Big => (words[0], words[1]),
        Endianness::Little => (words[1], words[0]),
        Endianness::BigSwap => (swap_bytes(words[0]), swap_bytes(words[1])),
        Endianness::LittleSwap => (swap_bytes(words[1]), swap_bytes(words[0])),
    };
    join_words(hi, lo)
}

fn i16_to_word(v: i16) -> (w: u16)
    ensures
        w == i16_bits(v),
{
    assert(v as u16 == (if v < 0 { v + 65536 } else { v as int }) as u16) by (bit_vector);
    v as u16
}

fn word_to_i16(w: u16) -> (v: i16)
    ensures
        v == bits_i16(w),
{
    assert(w as i16 == (if w >= 32768 { w - 65536 } else { w as int }) as i16) by (bit_vector);
    w as i16
}

/// Expand a cell into 1 or 2 Modbus words.
pub fn encode_words(cell: CellValue, endianness: Endianness) -> (ws: Vec<u16>)
    ensures
        ws@ == cell_words(cell, endianness),
        ws@.len() == cell.kind().words(),
{
    match cell {
        CellValue::U16(v) => vec![v],
        CellValue::I16(v) => vec![i16_to_word(v)],
        CellValue::U32(v) => {
            let p = u32_to_words(v, endianness);
            vec![p[0], p[1]]
        },
        CellValue::F32(v) => {
            let p = u32_to_words(v, endianness);
            vec![p[0], p[1]]
        },
    }
}

fn word_or_zero(words: &[u16], i: usize) -> (w: u16)
    ensures
        w == word_at(words@, i as int),
{
    if i < words.len() {
        words[i]
    } else {
        0
    }
}

/// Parse words back into a cell. Missing words are treated as zero.
pub fn decode_words(words: &[u16], data_type: DataType, endianness: Endianness) -> (cell: CellValue)
    ensures
        cell == cell_of_words(words@, data_type, endianness),
        cell.kind() == data_type,
{
    match data_type {
        DataType::Uint16 => CellValue::U16(word_or_zero(words, 0)),
        DataType::Int16 => CellValue::I16(word_to_i16(word_or_zero(words, 0))),
        DataType::Uint32 => {
            let pair = [word_or_zero(words, 0), word_or_zero(words, 1)];
            CellValue::U32(words_to_u32(pair, endianness))
        },
        DataType::Float32 => {
            let pair = [word_or_zero(words, 0), word_or_zero(words, 1)];
            CellValue::F32(words_to_u32(pair, endianness))
        },
    }
}

/// Exchanging the bytes of a word twice gives the word back.
pub proof fn lemma_swap16_involutive(w: u16)
    ensures
        swap16(swap16(w)) == w,
{
}

/// Laying a 32-bit value out as two words and reading them back gives the value.
pub proof fn lemma_value_of_pair(v: u32, e: Endianness)
    ensures
        value_of(pair_of(v, e).0, pair_of(v, e).1, e) == v,
{
    lemma_swap16_involutive(hi16(v));
    lemma_swap16_involutive(lo16(v));
}

/// Splitting a joined pair of words gives the words back.
pub proof fn lemma_split_join(hi: u16, lo: u16)
    ensures
        hi16(join16(hi, lo)) == hi,
        lo16(join16(hi, lo)) == lo,
{
    assert((hi * 65536 + lo) / 65536 == hi && (hi * 65536 + lo) % 65536 == lo) by (nonlinear_arith)
        requires
            0 <= hi < 65536,
            0 <= lo < 65536,
    ;
}

/// Reading two words as a 32-bit value and laying it out again gives the words.
pub proof fn lemma_pair_of_value(w0: u16, w1: u16, e: Endianness)
    ensures
        pair_of(value_of(w0, w1, e), e) == (w0, w1),
{
    lemma_swap16_involutive(w0);
    lemma_swap16_involutive(w1);
    match e {
        Endianness::Big => lemma_split_join(w0, w1),
        Endianness::Little => lemma_split_join(w1, w0),
        Endianness::BigSwap => lemma_split_join(swap16(w0), swap16(w1)),
        Endianness::LittleSwap => lemma_split_join(swap16(w1), swap16(w0)),
    }
}

/// Decoding the words of an encoded cell gives the cell back.
pub proof fn lemma_decode_encode(cell: CellValue, e: Endianness)
    ensures
        cell_of_words(cell_words(cell, e), cell.kind(), e) == cell,
{
    match cell {
        CellValue::U32(v) => lemma_value_of_pair(v, e),
        CellValue::F32(v) => lemma_value_of_pair(v, e),
        _ => {},
    }
}

/// Encoding a decoded cell gives back exactly the words it was decoded from,
/// when the run has the length the data type occupies.
pub proof fn lemma_encode_decode(ws: Seq<u16>, t: DataType, e: Endianness)
    requires
        ws.len() == t.words(),
    ensures
        cell_words(cell_of_words(ws, t, e), e) == ws,
{
    match t {
        DataType::Uint32 | DataType::Float32 => {
            lemma_pair_of_value(ws[0], ws[1], e);
            assert(cell_words(cell_of_words(ws, t, e), e) =~= ws);
        },
        _ => {
            assert(cell_words(cell_of_words(ws, t, e), e) =~= ws);
        },
    }
}

} // verus!
