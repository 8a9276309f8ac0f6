//! The lib0 binary encoding used on the wire (variable-length unsigned
//! integers, length-prefixed buffers and strings), reached through `yrs`.
use vstd::prelude::*;
use vstd::utf8::*;
use vstd::string::StringSliceAdditionalSpecFns;
use yrs::encoding::read::{Cursor, Read};
use yrs::encoding::write::Write;
use yrs::updates::decoder::{Decoder, DecoderV1};

verus! {

broadcast use vstd::utf8::encode_utf8_valid_utf8, vstd::utf8::encode_utf8_decode_utf8;

/// The error that `yrs` reports when bytes cannot be decoded.
#[verifier::external_type_specification]
#[verifier::external_body]
pub struct ExDecodeError(yrs::encoding::read::Error);

pub type DecodeError = yrs::encoding::read::Error;

/// Variable-length unsigned integer: seven bits per byte, least significant
/// group first, the high bit set on every byte but the last.
pub open spec fn var_uint_bytes(n: nat) -> Seq<u8>
    decreases n,
{
    if n < 128 {
        seq![n as u8]
    } else {
        seq![(n % 128 + 128) as u8] + var_uint_bytes(n / 128)
    }
}

/// The encoding of a one-byte value as a variable-length integer.
pub open spec fn var_u8_bytes(v: u8) -> Seq<u8> {
    var_uint_bytes(v as nat)
}

/// A length-prefixed byte buffer.
pub open spec fn buf_field(b: Seq<u8>) -> Seq<u8> {
    var_uint_bytes(b.len()) + b
}

/// A length-prefixed UTF-8 string.
pub open spec fn string_field(s: Seq<char>) -> Seq<u8> {
    buf_field(encode_utf8(s))
}

/// `field` stands in `data` from offset `pos` on.
pub open spec fn has_field_at(data: Seq<u8>, pos: int, field: Seq<u8>) -> bool {
    0 <= pos && pos + field.len() <= data.len() && data.subrange(pos, pos + field.len()) == field
}

/// Lengths that the decoder reads back without wrapping (a 32-bit length).
pub open spec fn fits_length(n: nat) -> bool {
    n < 0x1_0000_0000
}

/// A variable-length integer as `yrs` reads it into 32 bits, from `pos` on:
/// each byte's low seven bits are shifted left by `shift` (wrapping at 32
/// bits, as `u32::wrapping_shl` does) and or-ed into `acc`; a byte below
/// 0x80 ends it, and an eleventh byte that does not end it is refused.
/// The value and the offset after it.
pub open spec fn var_u32_from(data: Seq<u8>, pos: nat, shift: nat, acc: u32) -> Option<(u32, nat)>
    decreases 71 - shift,
{
    if pos >= data.len() || shift > 70 {
        None
    } else {
        let b = data[pos as int];
        let num = acc | (((b & 0x7fu8) as u32) << ((shift % 32) as u32));
        if b < 0x80u8 {
            Some((num, pos + 1))
        } else if shift + 7 > 70 {
            None
        } else {
            var_u32_from(data, pos + 1, shift + 7, num)
        }
    }
}

/// The same into 64 bits (shifts wrap at 64 bits).
pub open spec fn var_u64_from(data: Seq<u8>, pos: nat, shift: nat, acc: u64) -> Option<(u64, nat)>
    decreases 71 - shift,
{
    if pos >= data.len() || shift > 70 {
        None
    } else {
        let b = data[pos as int];
        let num = acc | (((b & 0x7fu8) as u64) << ((shift % 64) as u64));
        if b < 0x80u8 {
            Some((num, pos + 1))
        } else if shift + 7 > 70 {
            None
        } else {
            var_u64_from(data, pos + 1, shift + 7, num)
        }
    }
}

/// What `yrs` reads as a 32-bit variable-length integer at `pos`: the value
/// and the offset after it.
pub open spec fn lib0_var_u32(data: Seq<u8>, pos: nat) -> Option<(u32, nat)> {
    var_u32_from(data, pos, 0, 0)
}

/// What `yrs` reads as a 64-bit variable-length integer at `pos`.
pub open spec fn lib0_var_u64(data: Seq<u8>, pos: nat) -> Option<(u64, nat)> {
    var_u64_from(data, pos, 0, 0)
}

/// What `yrs` reads as a one-byte variable-length integer at `pos`: a
/// 32-bit one, refused when it does not fit in a byte.
pub open spec fn lib0_var_u8(data: Seq<u8>, pos: nat) -> Option<(u8, nat)> {
    match lib0_var_u32(data, pos) {
        Some((v, p)) => if v < 256 {
            Some((v as u8, p))
        } else {
            None
        },
        None => None,
    }
}

proof fn lemma_var_u32_progress(data: Seq<u8>, pos: nat, shift: nat, acc: u32)
    ensures
        var_u32_from(data, pos, shift, acc) matches Some((_, q)) ==> pos < q <= data.len(),
    decreases 71 - shift,
{
    if pos < data.len() && shift <= 70 && data[pos as int] >= 0x80u8 && shift + 7 <= 70 {
        let b = data[pos as int];
        let num = acc | (((b & 0x7fu8) as u32) << ((shift % 32) as u32));
        lemma_var_u32_progress(data, pos + 1, shift + 7, num);
    }
}

proof fn lemma_var_u64_progress(data: Seq<u8>, pos: nat, shift: nat, acc: u64)
    ensures
        var_u64_from(data, pos, shift, acc) matches Some((_, q)) ==> pos < q <= data.len(),
    decreases 71 - shift,
{
    if pos < data.len() && shift <= 70 && data[pos as int] >= 0x80u8 && shift + 7 <= 70 {
        let b = data[pos as int];
        let num = acc | (((b & 0x7fu8) as u64) << ((shift % 64) as u64));
        lemma_var_u64_progress(data, pos + 1, shift + 7, num);
    }
}

/// 128 to the power `k`, for the groups of a 32-bit value.
pub open spec fn group_weight(k: nat) -> nat {
    if k == 0 {
        1
    } else if k == 1 {
        0x80
    } else if k == 2 {
        0x4000
    } else if k == 3 {
        0x20_0000
    } else {
        0x1000_0000
    }
}

proof fn lemma_or_group(a: u32, x: u8, k: nat)
    requires
        k <= 4,
        a < group_weight(k),
        a + (x & 0x7fu8) * group_weight(k) < 0x1_0000_0000,
    ensures
        (a | (((x & 0x7fu8) as u32) << (((7 * k) % 32) as u32))) == a + (x & 0x7fu8) * group_weight(k),
{
    if k == 0 {
        assert(a < 1 && a + (x & 0x7fu8) * 1 < 0x1_0000_0000 ==> (a | (((x & 0x7fu8) as u32) << 0u32)) == a + (x & 0x7fu8) * 1) by (bit_vector);
    } else if k == 1 {
        assert(a < 0x80 && a + (x & 0x7fu8) * 0x80 < 0x1_0000_0000 ==> (a | (((x & 0x7fu8) as u32) << 7u32)) == a + (x & 0x7fu8) * 0x80) by (bit_vector);
    } else if k == 2 {
        assert(a < 0x4000 && a + (x & 0x7fu8) * 0x4000 < 0x1_0000_0000 ==> (a | (((x & 0x7fu8) as u32) << 14u32)) == a + (x & 0x7fu8) * 0x4000) by (bit_vector);
    } else if k == 3 {
        assert(a < 0x20_0000 && a + (x & 0x7fu8) * 0x20_0000 < 0x1_0000_0000 ==> (a | (((x & 0x7fu8) as u32) << 21u32)) == a + (x & 0x7fu8) * 0x20_0000) by (bit_vector);
    } else {
        assert(a < 0x1000_0000 && a + (x & 0x7fu8) * 0x1000_0000 < 0x1_0000_0000 ==> (a | (((x & 0x7fu8) as u32) << 28u32)) == a + (x & 0x7fu8) * 0x1000_0000) by (bit_vector);
    }
}

pub proof fn lemma_var_u32_reads_back(data: Seq<u8>, pos: int, k: nat, acc: u32, m: nat)
    requires
        k <= 4,
        acc < group_weight(k),
        acc + m * group_weight(k) < 0x1_0000_0000,
        has_field_at(data, pos, var_uint_bytes(m)),
    ensures
        var_u32_from(data, pos as nat, 7 * k, acc) == Some((
            (acc + m * group_weight(k)) as u32,
            (pos + var_uint_bytes(m).len()) as nat,
        )),
    decreases m,
{
    lemma_var_uint_len(m);
    let f = var_uint_bytes(m);
    assert(data[pos] == f[0]) by {
        assert(data.subrange(pos, pos + f.len())[0] == f[0]);
    }
    let b = data[pos];
    assert(b < 0x80u8 ==> (b & 0x7fu8) == b) by (bit_vector);
    assert(b >= 0x80u8 ==> (b & 0x7fu8) == b - 0x80u8) by (bit_vector);
    if m < 128 {
        assert(f =~= seq![m as u8]);
        lemma_or_group(acc, b, k);
    } else {
        let rest = var_uint_bytes(m / 128);
        assert(f == seq![(m % 128 + 128) as u8] + rest);
        assert(b == (m % 128 + 128) as u8);
        assert((b & 0x7fu8) == m % 128);
        assert(group_weight(k) * 128 <= acc + m * group_weight(k)) by (nonlinear_arith)
            requires
                m >= 128,
        ;
        assert(k < 4);
        assert(group_weight(k + 1) == group_weight(k) * 128);
        assert((m % 128) * group_weight(k) + (m / 128) * group_weight(k + 1) == m * group_weight(k)) by (nonlinear_arith)
            requires
                group_weight(k + 1) == group_weight(k) * 128,
        ;
        assert((m % 128) * group_weight(k) < 128 * group_weight(k) - group_weight(k) + 1) by (nonlinear_arith);
        lemma_or_group(acc, b, k);
        let num = (acc + (m % 128) * group_weight(k)) as u32;
        assert(has_field_at(data, pos + 1, rest)) by {
            assert(data.subrange(pos + 1, pos + 1 + rest.len()) =~= data.subrange(pos, pos + f.len()).subrange(1, f.len() as int));
            assert(f.subrange(1, f.len() as int) =~= rest);
        }
        assert(7 * k + 7 == 7 * (k + 1));
        lemma_var_u32_reads_back(data, pos + 1, k + 1, num, m / 128);
    }
}

/// A length-prefixed buffer at `pos`, as `yrs` reads it: a 32-bit length,
/// then that many bytes when they are there; the bytes and the offset after them.
pub open spec fn lib0_buf(data: Seq<u8>, pos: nat) -> Option<(Seq<u8>, nat)> {
    match lib0_var_u32(data, pos) {
        Some((len, p)) => if p + len <= data.len() {
            Some((data.subrange(p as int, p + len), (p + len) as nat))
        } else {
            None
        },
        None => None,
    }
}

/// Every one-byte value whose canonical encoding stands at `pos` is read back.
pub open spec fn reads_back_var_u8(data: Seq<u8>, pos: int, r: Result<(u8, usize), DecodeError>) -> bool {
    forall|v: u8| #[trigger] has_field_at(data, pos, var_u8_bytes(v))
        ==> (r matches Ok((w, next)) && w == v && next == pos + var_u8_bytes(v).len())
}

/// Every 32-bit value whose canonical encoding stands at `pos` is read back.
pub open spec fn reads_back_var_u32(data: Seq<u8>, pos: int, r: Result<(u32, usize), DecodeError>) -> bool {
    forall|n: nat| #[trigger] has_field_at(data, pos, var_uint_bytes(n)) && fits_length(n)
        ==> (r matches Ok((w, next)) && w == n && next == pos + var_uint_bytes(n).len())
}

/// Every buffer of 32-bit length whose canonical encoding stands at `pos` is read back.
pub open spec fn reads_back_buf(data: Seq<u8>, pos: int, r: Result<(Vec<u8>, usize), DecodeError>) -> bool {
    forall|b: Seq<u8>| #[trigger] has_field_at(data, pos, buf_field(b)) && fits_length(b.len())
        ==> (r matches Ok((c, next)) && c@ == b && next == pos + buf_field(b).len())
}

/// Every string of 32-bit byte length whose encoding stands at `pos` is read back.
pub open spec fn reads_back_string(data: Seq<u8>, pos: int, r: Result<(String, usize), DecodeError>) -> bool {
    forall|s: Seq<char>| #[trigger] has_field_at(data, pos, string_field(s)) && fits_length(encode_utf8(s).len())
        ==> (r matches Ok((t, next)) && t@ == s && next == pos + string_field(s).len())
}

pub proof fn lemma_var_uint_len(n: nat)
    ensures
        n < 128 ==> var_uint_bytes(n).len() == 1,
        128 <= n < 0x4000 ==> var_uint_bytes(n).len() == 2,
        var_uint_bytes(n).len() >= 1,
    decreases n,
{
    if n >= 128 {
        lemma_var_uint_len(n / 128);
    }
}

/// Appends `v` as a variable-length integer (`yrs` `Write::write_var`).
#[verifier::external_body]
pub(crate) fn write_var_u8(buf: &mut Vec<u8>, v: u8)
    ensures
        final(buf)@ == old(buf)@ + var_u8_bytes(v),
{
    buf.write_var(v)
}

/// Appends one raw byte (`yrs` `Write::write_u8`).
#[verifier::external_body]
pub(crate) fn write_raw_u8(buf: &mut Vec<u8>, v: u8)
    ensures
        final(buf)@ == old(buf)@.push(v),
{
    Write::write_u8(buf, v)
}

/// Appends a length-prefixed buffer (`yrs` `Write::write_buf`).
#[verifier::external_body]
pub(crate) fn write_buf(buf: &mut Vec<u8>, data: &[u8])
    ensures
        final(buf)@ == old(buf)@ + buf_field(data@),
{
    buf.write_buf(data)
}

/// Appends a length-prefixed UTF-8 string (`yrs` `Write::write_string`).
#[verifier::external_body]
pub(crate) fn write_string(buf: &mut Vec<u8>, s: &str)
    ensures
        final(buf)@ == old(buf)@ + string_field(s@),
{
    buf.write_string(s)
}

/// The error `yrs` reports for an unexpected value (`read::Error::UnexpectedValue`).
#[verifier::external_body]
pub(crate) fn unexpected_value() -> DecodeError {
    yrs::encoding::read::Error::UnexpectedValue
}

/// The error `yrs` reports when fewer bytes remain than a length asks for
/// (`read::Error::EndOfBuffer`).
#[verifier::external_body]
pub(crate) fn end_of_buffer(len: usize) -> DecodeError {
    yrs::encoding::read::Error::EndOfBuffer(len)
}

/// Reads a one-byte variable-length integer at `pos` (`yrs`
/// `Read::read_var::<u8>`, which reads a 32-bit one and refuses it when it
/// does not fit in a byte).
#[verifier::external_body]
fn yrs_read_var_u8(data: &[u8], pos: usize) -> (r: Result<(u8, usize), DecodeError>)
    ensures
        r is Ok <==> lib0_var_u8(data@, pos as nat) is Some,
        r matches Ok((v, next)) ==> lib0_var_u8(data@, pos as nat) == Some((v, next as nat)),
{
    let mut cur = Cursor { buf: data, next: pos };
    match cur.read_var::<u8>() {
        Ok(v) => Ok((v, cur.next)),
        Err(e) => Err(e),
    }
}

/// Reads a 32-bit variable-length integer at `pos` (`yrs` `Read::read_var::<u32>`).
#[verifier::external_body]
fn yrs_read_var_u32(data: &[u8], pos: usize) -> (r: Result<(u32, usize), DecodeError>)
    ensures
        r is Ok <==> lib0_var_u32(data@, pos as nat) is Some,
        r matches Ok((v, next)) ==> lib0_var_u32(data@, pos as nat) == Some((v, next as nat)),
{
    let mut cur = Cursor { buf: data, next: pos };
    match cur.read_var::<u32>() {
        Ok(v) => Ok((v, cur.next)),
        Err(e) => Err(e),
    }
}

/// Reads a 64-bit variable-length integer at `pos` (`yrs` `Read::read_var::<u64>`).
#[verifier::external_body]
fn yrs_read_var_u64(data: &[u8], pos: usize) -> (r: Result<(u64, usize), DecodeError>)
    ensures
        r is Ok <==> lib0_var_u64(data@, pos as nat) is Some,
        r matches Ok((v, next)) ==> lib0_var_u64(data@, pos as nat) == Some((v, next as nat)),
{
    let mut cur = Cursor { buf: data, next: pos };
    match cur.read_var::<u64>() {
        Ok(v) => Ok((v, cur.next)),
        Err(e) => Err(e),
    }
}

/// Reads a one-byte variable-length integer at `pos`; a success consumes at
/// least one byte, and the canonical encoding of a value reads back as it.
pub(crate) fn read_var_u8(data: &[u8], pos: usize) -> (r: Result<(u8, usize), DecodeError>)
    ensures
        r is Ok <==> lib0_var_u8(data@, pos as nat) is Some,
        r matches Ok((v, next)) ==> lib0_var_u8(data@, pos as nat) == Some((v, next as nat))
            && pos < next <= data@.len(),
        reads_back_var_u8(data@, pos as int, r),
{
    let r = yrs_read_var_u8(data, pos);
    proof {
        lemma_var_u32_progress(data@, pos as nat, 0, 0);
        assert forall|v: u8| #[trigger] has_field_at(data@, pos as int, var_u8_bytes(v))
            implies (r matches Ok((w, next)) && w == v && next == pos + var_u8_bytes(v).len()) by {
            lemma_var_u32_reads_back(data@, pos as int, 0, 0, v as nat);
        }
    }
    r
}

/// Reads a 32-bit variable-length integer at `pos`; a success consumes at
/// least one byte, and the canonical encoding of a 32-bit value reads back
/// as it.
pub(crate) fn read_var_u32(data: &[u8], pos: usize) -> (r: Result<(u32, usize), DecodeError>)
    ensures
        r is Ok <==> lib0_var_u32(data@, pos as nat) is Some,
        r matches Ok((v, next)) ==> lib0_var_u32(data@, pos as nat) == Some((v, next as nat))
            && pos < next <= data@.len(),
        reads_back_var_u32(data@, pos as int, r),
{
    let r = yrs_read_var_u32(data, pos);
    proof {
        lemma_var_u32_progress(data@, pos as nat, 0, 0);
        assert forall|n: nat| #[trigger] has_field_at(data@, pos as int, var_uint_bytes(n)) && fits_length(n)
            implies (r matches Ok((w, next)) && w == n && next == pos + var_uint_bytes(n).len()) by {
            lemma_var_u32_reads_back(data@, pos as int, 0, 0, n);
        }
    }
    r
}

/// Reads a 64-bit variable-length integer at `pos`; a success consumes at
/// least one byte.
pub(crate) fn read_var_u64(data: &[u8], pos: usize) -> (r: Result<(u64, usize), DecodeError>)
    ensures
        r is Ok <==> lib0_var_u64(data@, pos as nat) is Some,
        r matches Ok((v, next)) ==> lib0_var_u64(data@, pos as nat) == Some((v, next as nat))
            && pos < next <= data@.len(),
{
    let r = yrs_read_var_u64(data, pos);
    proof {
        lemma_var_u64_progress(data@, pos as nat, 0, 0);
    }
    r
}

/// The `len` bytes at `pos` (`yrs` `Read::read_exact`), which are all there.
#[verifier::external_body]
fn read_exact(data: &[u8], pos: usize, len: usize) -> (r: Vec<u8>)
    requires
        pos + len <= data@.len(),
    ensures
        r@ == data@.subrange(pos as int, pos + len),
{
    let mut cur = Cursor { buf: data, next: pos };
    match cur.read_exact(len) {
        Ok(b) => b.to_vec(),
        Err(_) => Vec::new(),
    }
}

/// The string whose UTF-8 bytes are `bytes`, if they are valid UTF-8
/// (`String::from_utf8`).
#[verifier::external_body]
fn string_from_utf8(bytes: Vec<u8>) -> (r: Option<String>)
    ensures
        r is Some <==> valid_utf8(bytes@),
        r matches Some(s) ==> s@ == decode_utf8(bytes@),
{
    String::from_utf8(bytes).ok()
}

proof fn lemma_buf_field_layout(data: Seq<u8>, pos: int, b: Seq<u8>)
    requires
        has_field_at(data, pos, buf_field(b)),
    ensures
        has_field_at(data, pos, var_uint_bytes(b.len())),
        data.subrange(pos + var_uint_bytes(b.len()).len(), pos + buf_field(b).len()) == b,
{
    let h = var_uint_bytes(b.len());
    assert(data.subrange(pos, pos + h.len()) =~= buf_field(b).subrange(0, h.len() as int));
    assert(buf_field(b).subrange(0, h.len() as int) =~= h);
    assert(data.subrange(pos + h.len(), pos + buf_field(b).len()) =~= buf_field(b).subrange(
        h.len() as int,
        buf_field(b).len() as int,
    ));
    assert(buf_field(b).subrange(h.len() as int, buf_field(b).len() as int) =~= b);
}

/// 128 to the power `k`, for the groups of a 64-bit value.
pub open spec fn group_weight64(k: nat) -> nat {
    if k == 0 {
        0x1
    } else
    if k == 1 {
        0x80
    } else
    if k == 2 {
        0x4000
    } else
    if k == 3 {
        0x200000
    } else
    if k == 4 {
        0x10000000
    } else
    if k == 5 {
        0x800000000
    } else
    if k == 6 {
        0x40000000000
    } else
    if k == 7 {
        0x2000000000000
    } else
    if k == 8 {
        0x100000000000000
    } else {
        0x8000000000000000
    }
}

proof fn lemma_or_group64(a: u64, x: u8, k: nat)
    requires
        k <= 9,
        a < group_weight64(k),
        a + (x & 0x7fu8) * group_weight64(k) < 0x1_0000_0000_0000_0000,
    ensures
        (a | (((x & 0x7fu8) as u64) << (((7 * k) % 64) as u64))) == a + (x & 0x7fu8) * group_weight64(k),
{
    if k == 0 {
        assert(a < 0x1 && a + (x & 0x7fu8) * 0x1 < 0x1_0000_0000_0000_0000 ==> (a | (((x & 0x7fu8) as u64) << 0u64)) == a + (x & 0x7fu8) * 0x1) by (bit_vector);
    } else if k == 1 {
        assert(a < 0x80 && a + (x & 0x7fu8) * 0x80 < 0x1_0000_0000_0000_0000 ==> (a | (((x & 0x7fu8) as u64) << 7u64)) == a + (x & 0x7fu8) * 0x80) by (bit_vector);
    } else if k == 2 {
        assert(a < 0x4000 && a + (x & 0x7fu8) * 0x4000 < 0x1_0000_0000_0000_0000 ==> (a | (((x & 0x7fu8) as u64) << 14u64)) == a + (x & 0x7fu8) * 0x4000) by (bit_vector);
    } else if k == 3 {
        assert(a < 0x200000 && a + (x & 0x7fu8) * 0x200000 < 0x1_0000_0000_0000_0000 ==> (a | (((x & 0x7fu8) as u64) << 21u64)) == a + (x & 0x7fu8) * 0x200000) by (bit_vector);
    } else if k == 4 {
        assert(a < 0x10000000 && a + (x & 0x7fu8) * 0x10000000 < 0x1_0000_0000_0000_0000 ==> (a | (((x & 0x7fu8) as u64) << 28u64)) == a + (x & 0x7fu8) * 0x10000000) by (bit_vector);
    } else if k == 5 {
        assert(a < 0x800000000 && a + (x & 0x7fu8) * 0x800000000 < 0x1_0000_0000_0000_0000 ==> (a | (((x & 0x7fu8) as u64) << 35u64)) == a + (x & 0x7fu8) * 0x800000000) by (bit_vector);
    } else if k == 6 {
        assert(a < 0x40000000000 && a + (x & 0x7fu8) * 0x40000000000 < 0x1_0000_0000_0000_0000 ==> (a | (((x & 0x7fu8) as u64) << 42u64)) == a + (x & 0x7fu8) * 0x40000000000) by (bit_vector);
    } else if k == 7 {
        assert(a < 0x2000000000000 && a + (x & 0x7fu8) * 0x2000000000000 < 0x1_0000_0000_0000_0000 ==> (a | (((x & 0x7fu8) as u64) << 49u64)) == a + (x & 0x7fu8) * 0x2000000000000) by (bit_vector);
    } else if k == 8 {
        assert(a < 0x100000000000000 && a + (x & 0x7fu8) * 0x100000000000000 < 0x1_0000_0000_0000_0000 ==> (a | (((x & 0x7fu8) as u64) << 56u64)) == a + (x & 0x7fu8) * 0x100000000000000) by (bit_vector);
    } else {
        assert(a < 0x8000000000000000 && a + (x & 0x7fu8) * 0x8000000000000000 < 0x1_0000_0000_0000_0000 ==> (a | (((x & 0x7fu8) as u64) << 63u64)) == a + (x & 0x7fu8) * 0x8000000000000000) by (bit_vector);
    }
}

/// The canonical encoding of a value that fits in 64 bits reads back as it,
/// from the `k`-th group on with `acc` read so far.
pub proof fn lemma_var_u64_reads_back(data: Seq<u8>, pos: int, k: nat, acc: u64, m: nat)
    requires
        k <= 9,
        acc < group_weight64(k),
        acc + m * group_weight64(k) < 0x1_0000_0000_0000_0000,
        has_field_at(data, pos, var_uint_bytes(m)),
    ensures
        var_u64_from(data, pos as nat, 7 * k, acc) == Some((
            (acc + m * group_weight64(k)) as u64,
            (pos + var_uint_bytes(m).len()) as nat,
        )),
    decreases m,
{
    lemma_var_uint_len(m);
    let f = var_uint_bytes(m);
    assert(data[pos] == f[0]) by {
        assert(data.subrange(pos, pos + f.len())[0] == f[0]);
    }
    let b = data[pos];
    assert(b < 0x80u8 ==> (b & 0x7fu8) == b) by (bit_vector);
    assert(b >= 0x80u8 ==> (b & 0x7fu8) == b - 0x80u8) by (bit_vector);
    if m < 128 {
        assert(f =~= seq![m as u8]);
        lemma_or_group64(acc, b, k);
    } else {
        let rest = var_uint_bytes(m / 128);
        assert(f == seq![(m % 128 + 128) as u8] + rest);
        assert(b == (m % 128 + 128) as u8);
        assert((b & 0x7fu8) == m % 128);
        assert(group_weight64(k) * 128 <= acc + m * group_weight64(k)) by (nonlinear_arith)
            requires
                m >= 128,
        ;
        assert(k < 9);
        assert(group_weight64(k + 1) == group_weight64(k) * 128);
        assert((m % 128) * group_weight64(k) + (m / 128) * group_weight64(k + 1) == m * group_weight64(k)) by (nonlinear_arith)
            requires
                group_weight64(k + 1) == group_weight64(k) * 128,
        ;
        assert((m % 128) * group_weight64(k) < 128 * group_weight64(k) - group_weight64(k) + 1) by (nonlinear_arith);
        lemma_or_group64(acc, b, k);
        let num = (acc + (m % 128) * group_weight64(k)) as u64;
        assert(has_field_at(data, pos + 1, rest)) by {
            assert(data.subrange(pos + 1, pos + 1 + rest.len()) =~= data.subrange(pos, pos + f.len()).subrange(1, f.len() as int));
            assert(f.subrange(1, f.len() as int) =~= rest);
        }
        assert(7 * k + 7 == 7 * (k + 1));
        lemma_var_u64_reads_back(data, pos + 1, k + 1, num, m / 128);
    }
}

/// The canonical encoding of a one-byte value reads back as that value.
pub proof fn lemma_var_u8_reads_back(data: Seq<u8>, pos: int, v: u8)
    requires
        has_field_at(data, pos, var_u8_bytes(v)),
    ensures
        lib0_var_u8(data, pos as nat) == Some((v, (pos + var_u8_bytes(v).len()) as nat)),
{
    lemma_var_u32_reads_back(data, pos, 0, 0, v as nat);
}

/// A length-prefixed buffer of 32-bit length reads back as its bytes.
pub proof fn lemma_buf_reads_back(data: Seq<u8>, pos: int, b: Seq<u8>)
    requires
        has_field_at(data, pos, buf_field(b)),
        fits_length(b.len()),
    ensures
        lib0_buf(data, pos as nat) == Some((b, (pos + buf_field(b).len()) as nat)),
{
    lemma_buf_field_layout(data, pos, b);
    lemma_var_u32_reads_back(data, pos, 0, 0, b.len());
}

/// Reads a length-prefixed buffer at `pos`: a 32-bit length, then that many
/// bytes, refused when fewer remain.
pub fn read_buf(data: &[u8], pos: usize) -> (r: Result<(Vec<u8>, usize), DecodeError>)
    ensures
        r is Ok <==> lib0_buf(data@, pos as nat) is Some,
        r matches Ok((b, next)) ==> lib0_buf(data@, pos as nat) == Some((b@, next as nat))
            && pos < next <= data@.len() && b@.len() <= next - pos
            && b@ == data@.subrange(next - b@.len(), next as int),
        reads_back_buf(data@, pos as int, r),
{
    let (len, p) = match read_var_u32(data, pos) {
        Ok(x) => x,
        Err(e) => {
            proof {
                assert forall|b: Seq<u8>| #[trigger] has_field_at(data@, pos as int, buf_field(b)) && fits_length(b.len())
                    implies false by {
                    lemma_buf_field_layout(data@, pos as int, b);
                }
            }
            return Err(e);
        },
    };
    let len = len as usize;
    if len > data.len() - p {
        proof {
            assert forall|b: Seq<u8>| #[trigger] has_field_at(data@, pos as int, buf_field(b)) && fits_length(b.len())
                implies false by {
                lemma_buf_field_layout(data@, pos as int, b);
            }
        }
        return Err(end_of_buffer(len));
    }
    let bytes = read_exact(data, p, len);
    proof {
        assert forall|b: Seq<u8>| #[trigger] has_field_at(data@, pos as int, buf_field(b)) && fits_length(b.len())
            implies bytes@ == b && p + len == pos + buf_field(b).len() by {
            lemma_buf_field_layout(data@, pos as int, b);
        }
    }
    Ok((bytes, p + len))
}

/// Reads a length-prefixed UTF-8 string at `pos`: a buffer read as by
/// `read_buf`, accepted when it is valid UTF-8.
pub fn read_string(data: &[u8], pos: usize) -> (r: Result<(String, usize), DecodeError>)
    ensures
        r is Ok <==> (lib0_buf(data@, pos as nat) matches Some((b, _)) && valid_utf8(b)),
        r matches Ok((s, next)) ==> lib0_buf(data@, pos as nat) matches Some((b, n))
            && n == next as nat && s@ == decode_utf8(b) && pos < next <= data@.len(),
        reads_back_string(data@, pos as int, r),
{
    let (bytes, next) = match read_buf(data, pos) {
        Ok(x) => x,
        Err(e) => {
            proof {
                assert forall|s: Seq<char>| #[trigger] has_field_at(data@, pos as int, string_field(s)) && fits_length(encode_utf8(s).len())
                    implies false by {
                    assert(has_field_at(data@, pos as int, buf_field(encode_utf8(s))));
                }
            }
            return Err(e);
        },
    };
    let ghost b = bytes@;
    match string_from_utf8(bytes) {
        Some(s) => {
            proof {
                assert forall|t: Seq<char>| #[trigger] has_field_at(data@, pos as int, string_field(t)) && fits_length(encode_utf8(t).len())
                    implies s@ == t && next == pos + string_field(t).len() by {
                    assert(has_field_at(data@, pos as int, buf_field(encode_utf8(t))));
                }
            }
            Ok((s, next))
        },
        None => {
            proof {
                assert forall|t: Seq<char>| #[trigger] has_field_at(data@, pos as int, string_field(t)) && fits_length(encode_utf8(t).len())
                    implies false by {
                    assert(has_field_at(data@, pos as int, buf_field(encode_utf8(t))));
                }
            }
            Err(unexpected_value())
        },
    }
}

/// The bytes from `pos` to the end (`yrs` `Decoder::read_to_end` of `DecoderV1`).
#[verifier::external_body]
pub(crate) fn read_to_end(data: &[u8], pos: usize) -> (r: Vec<u8>)
    requires
        pos <= data@.len(),
    ensures
        r@ == data@.subrange(pos as int, data@.len() as int),
{
    let mut decoder = DecoderV1::new(Cursor { buf: data, next: pos });
    match decoder.read_to_end() {
        Ok(rest) => rest.to_vec(),
        Err(_) => Vec::new(),
    }
}

} // verus!

verus! {

/// `field` occupies `data` from `pos` to its end.
pub open spec fn at_end(data: Seq<u8>, pos: int, field: Seq<u8>) -> bool {
    0 <= pos <= data.len() && data.subrange(pos, data.len() as int) == field
}

pub proof fn lemma_at_end_split(data: Seq<u8>, pos: int, a: Seq<u8>, b: Seq<u8>)
    requires
        at_end(data, pos, a + b),
    ensures
        has_field_at(data, pos, a),
        at_end(data, pos + a.len(), b),
{
    assert(data.subrange(pos, pos + a.len()) =~= (a + b).subrange(0, a.len() as int));
    assert((a + b).subrange(0, a.len() as int) =~= a);
    assert(data.subrange(pos + a.len(), data.len() as int) =~= (a + b).subrange(
        a.len() as int,
        (a + b).len() as int,
    ));
    assert((a + b).subrange(a.len() as int, (a + b).len() as int) =~= b);
}

pub proof fn lemma_at_end_field(data: Seq<u8>, pos: int, a: Seq<u8>)
    requires
        at_end(data, pos, a),
    ensures
        has_field_at(data, pos, a),
        pos + a.len() == data.len(),
{
}

pub proof fn lemma_var_u8_len(v: u8)
    ensures
        v < 128 ==> var_u8_bytes(v).len() == 1 && var_u8_bytes(v) == seq![v],
        var_u8_bytes(v).len() <= 2,
        var_u8_bytes(v).len() >= 1,
{
    reveal_with_fuel(var_uint_bytes, 3);
}

pub proof fn lemma_field_nonempty(s: Seq<char>, b: Seq<u8>)
    ensures
        string_field(s).len() >= 1,
        buf_field(b).len() >= 1,
{
    lemma_var_uint_len(encode_utf8(s).len());
    lemma_var_uint_len(b.len());
}

} // verus!
