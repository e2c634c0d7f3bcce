//! The wire form of the values a record is made of: fixed-width integers in
//! little-endian order, texts behind a 4-byte length, optional values behind a
//! one-byte presence flag.
//!
//! Each value has a spec function that gives its bytes (`ser_*`), a spec function that
//! reads it from the front of a byte sequence and hands back the rest (`parse_*`), and
//! executable functions that do the same on a `Vec<u8>` and on a slice.

use vstd::bytes::{
    lemma_auto_spec_u32_to_from_le_bytes, lemma_auto_spec_u64_to_from_le_bytes,
    spec_u32_from_le_bytes, spec_u32_to_le_bytes, spec_u64_from_le_bytes, spec_u64_to_le_bytes,
    u32_from_le_bytes, u32_to_le_bytes, u64_from_le_bytes, u64_to_le_bytes,
};
use vstd::prelude::*;
use vstd::slice::{slice_subrange, slice_to_vec};
use vstd::utf8::{
    decode_utf8, decode_utf8_encode_utf8, encode_utf8, encode_utf8_decode_utf8,
    encode_utf8_valid_utf8, valid_utf8,
};

verus! {

// ---------------------------------------------------------------------------
// What is written
// ---------------------------------------------------------------------------

/// The two's-complement bit pattern of a signed 64-bit integer.
pub open spec fn i64_bits(x: i64) -> u64 {
    if x >= 0 {
        x as u64
    } else {
        (x + 0x1_0000_0000_0000_0000) as u64
    }
}

/// The signed integer with a given two's-complement bit pattern.
pub open spec fn i64_of_bits(u: u64) -> i64 {
    if u < 0x8000_0000_0000_0000 {
        u as i64
    } else {
        (u - 0x1_0000_0000_0000_0000) as i64
    }
}

pub open spec fn ser_u8(x: u8) -> Seq<u8> {
    seq![x]
}

pub open spec fn ser_bool(b: bool) -> Seq<u8> {
    seq![if b { 1u8 } else { 0u8 }]
}

pub open spec fn ser_u32(x: u32) -> Seq<u8> {
    spec_u32_to_le_bytes(x)
}

pub open spec fn ser_u64(x: u64) -> Seq<u8> {
    spec_u64_to_le_bytes(x)
}

pub open spec fn ser_i64(x: i64) -> Seq<u8> {
    spec_u64_to_le_bytes(i64_bits(x))
}

/// A text: the number of its UTF-8 bytes, then those bytes.
pub open spec fn ser_text(text: Seq<char>) -> Seq<u8> {
    ser_u32(encode_utf8(text).len() as u32) + encode_utf8(text)
}

/// An optional integer: flag 0 and nothing more, or flag 1 and the integer.
pub open spec fn ser_opt_i64(value: Option<i64>) -> Seq<u8> {
    match value {
        None => seq![0u8],
        Some(x) => seq![1u8] + ser_i64(x),
    }
}

/// An optional text: flag 0 and nothing more, or flag 1 and the text.
pub open spec fn ser_opt_text(value: Option<Seq<char>>) -> Seq<u8> {
    match value {
        None => seq![0u8],
        Some(t) => seq![1u8] + ser_text(t),
    }
}

// ---------------------------------------------------------------------------
// What is read
// ---------------------------------------------------------------------------

/// The first `n` bytes, where there are that many.
#[verifier::opaque]
pub open spec fn parse_bytes(s: Seq<u8>, n: nat) -> Option<(Seq<u8>, Seq<u8>)> {
    if s.len() >= n {
        Some((s.take(n as int), s.skip(n as int)))
    } else {
        None
    }
}

#[verifier::opaque]
pub open spec fn parse_u8(s: Seq<u8>) -> Option<(u8, Seq<u8>)> {
    if s.len() >= 1 {
        Some((s[0], s.skip(1)))
    } else {
        None
    }
}

/// A byte that is 0 or 1; any other byte is refused.
#[verifier::opaque]
pub open spec fn parse_bool(s: Seq<u8>) -> Option<(bool, Seq<u8>)> {
    if s.len() >= 1 && s[0] <= 1 {
        Some((s[0] == 1, s.skip(1)))
    } else {
        None
    }
}

#[verifier::opaque]
pub open spec fn parse_u32(s: Seq<u8>) -> Option<(u32, Seq<u8>)> {
    if s.len() >= 4 {
        Some((spec_u32_from_le_bytes(s.take(4)), s.skip(4)))
    } else {
        None
    }
}

#[verifier::opaque]
pub open spec fn parse_u64(s: Seq<u8>) -> Option<(u64, Seq<u8>)> {
    if s.len() >= 8 {
        Some((spec_u64_from_le_bytes(s.take(8)), s.skip(8)))
    } else {
        None
    }
}

#[verifier::opaque]
pub open spec fn parse_i64(s: Seq<u8>) -> Option<(i64, Seq<u8>)> {
    match parse_u64(s) {
        Some((u, rest)) => Some((i64_of_bits(u), rest)),
        None => None,
    }
}

/// A text of at most `max` bytes: refused where the declared length is over `max`, where
/// fewer bytes follow than declared, or where the bytes are not UTF-8.
#[verifier::opaque]
pub open spec fn parse_text(s: Seq<u8>, max: nat) -> Option<(Seq<char>, Seq<u8>)> {
    match parse_u32(s) {
        Some((n, rest)) => {
            if n <= max && n <= rest.len() && valid_utf8(rest.take(n as int)) {
                Some((decode_utf8(rest.take(n as int)), rest.skip(n as int)))
            } else {
                None
            }
        },
        None => None,
    }
}

/// An optional integer: refused where the flag is neither 0 nor 1.
#[verifier::opaque]
pub open spec fn parse_opt_i64(s: Seq<u8>) -> Option<(Option<i64>, Seq<u8>)> {
    match parse_u8(s) {
        Some((flag, rest)) => {
            if flag == 0 {
                Some((None, rest))
            } else if flag == 1 {
                match parse_i64(rest) {
                    Some((x, rest2)) => Some((Some(x), rest2)),
                    None => None,
                }
            } else {
                None
            }
        },
        None => None,
    }
}

/// An optional text: refused where the flag is neither 0 nor 1.
#[verifier::opaque]
pub open spec fn parse_opt_text(s: Seq<u8>, max: nat) -> Option<(Option<Seq<char>>, Seq<u8>)> {
    match parse_u8(s) {
        Some((flag, rest)) => {
            if flag == 0 {
                Some((None, rest))
            } else if flag == 1 {
                match parse_text(rest, max) {
                    Some((t, rest2)) => Some((Some(t), rest2)),
                    None => None,
                }
            } else {
                None
            }
        },
        None => None,
    }
}

// ---------------------------------------------------------------------------
// Reading what was written gives it back, and the other way round
// ---------------------------------------------------------------------------

/// How many bytes each value takes.
pub proof fn lemma_ser_len_int(x32: u32, x64: u64, i: i64)
    ensures
        ser_u32(x32).len() == 4,
        ser_u64(x64).len() == 8,
        ser_i64(i).len() == 8,
{
    lemma_auto_spec_u32_to_from_le_bytes();
    lemma_auto_spec_u64_to_from_le_bytes();
}

pub proof fn lemma_ser_len_text(text: Seq<char>)
    ensures
        ser_text(text).len() == 4 + encode_utf8(text).len(),
{
    lemma_ser_len_int(encode_utf8(text).len() as u32, 0, 0);
}

pub proof fn lemma_ser_len_opt_i64(value: Option<i64>)
    ensures
        ser_opt_i64(value).len() == (if value is Some { 9int } else { 1int }),
{
    if let Some(x) = value {
        lemma_ser_len_int(0, 0, x);
    }
}

pub proof fn lemma_ser_len_opt_text(value: Option<Seq<char>>)
    ensures
        ser_opt_text(value).len() == (match value {
            Some(t) => 5 + encode_utf8(t).len(),
            None => 1,
        }),
{
    if let Some(t) = value {
        lemma_ser_len_text(t);
    }
}

pub proof fn lemma_parse_ser_bytes(bytes: Seq<u8>, rest: Seq<u8>)
    ensures
        parse_bytes(bytes + rest, bytes.len()) == Some((bytes, rest)),
{
    reveal(parse_bytes);
    assert((bytes + rest).take(bytes.len() as int) =~= bytes);
    assert((bytes + rest).skip(bytes.len() as int) =~= rest);
}

pub proof fn lemma_parse_ser_u8(x: u8, rest: Seq<u8>)
    ensures
        parse_u8(ser_u8(x) + rest) == Some((x, rest)),
{
    reveal(parse_u8);
    assert((ser_u8(x) + rest).skip(1) =~= rest);
}

pub proof fn lemma_parse_ser_bool(b: bool, rest: Seq<u8>)
    ensures
        parse_bool(ser_bool(b) + rest) == Some((b, rest)),
{
    reveal(parse_bool);
    assert((ser_bool(b) + rest).skip(1) =~= rest);
}

pub proof fn lemma_parse_ser_u32(x: u32, rest: Seq<u8>)
    ensures
        parse_u32(ser_u32(x) + rest) == Some((x, rest)),
{
    reveal(parse_u32);
    lemma_auto_spec_u32_to_from_le_bytes();
    assert((ser_u32(x) + rest).take(4) =~= ser_u32(x));
    assert((ser_u32(x) + rest).skip(4) =~= rest);
}

pub proof fn lemma_parse_ser_u64(x: u64, rest: Seq<u8>)
    ensures
        parse_u64(ser_u64(x) + rest) == Some((x, rest)),
{
    reveal(parse_u64);
    lemma_auto_spec_u64_to_from_le_bytes();
    assert((ser_u64(x) + rest).take(8) =~= ser_u64(x));
    assert((ser_u64(x) + rest).skip(8) =~= rest);
}

pub proof fn lemma_parse_ser_i64(x: i64, rest: Seq<u8>)
    ensures
        parse_i64(ser_i64(x) + rest) == Some((x, rest)),
{
    reveal(parse_i64);
    reveal(parse_u64);
    lemma_parse_ser_u64(i64_bits(x), rest);
}

pub proof fn lemma_parse_ser_text(text: Seq<char>, max: nat, rest: Seq<u8>)
    requires
        encode_utf8(text).len() <= max,
        max <= u32::MAX,
    ensures
        parse_text(ser_text(text) + rest, max) == Some((text, rest)),
{
    reveal(parse_text);
    reveal(parse_u32);
    let body = encode_utf8(text);
    let n = body.len() as u32;
    let tail = body + rest;
    assert(ser_text(text) + rest =~= ser_u32(n) + tail);
    lemma_parse_ser_u32(n, tail);
    assert(tail.take(n as int) =~= body);
    assert(tail.skip(n as int) =~= rest);
    encode_utf8_valid_utf8(text);
    encode_utf8_decode_utf8(text);
}

pub proof fn lemma_parse_ser_opt_i64(value: Option<i64>, rest: Seq<u8>)
    ensures
        parse_opt_i64(ser_opt_i64(value) + rest) == Some((value, rest)),
{
    reveal(parse_opt_i64);
    reveal(parse_u8);
    reveal(parse_i64);
    match value {
        None => {
            assert((ser_opt_i64(value) + rest).skip(1) =~= rest);
        },
        Some(x) => {
            let tail = ser_i64(x) + rest;
            assert(ser_opt_i64(value) + rest =~= seq![1u8] + tail);
            assert((seq![1u8] + tail).skip(1) =~= tail);
            lemma_parse_ser_i64(x, rest);
        },
    }
}

pub proof fn lemma_parse_ser_opt_text(value: Option<Seq<char>>, max: nat, rest: Seq<u8>)
    requires
        value matches Some(t) ==> encode_utf8(t).len() <= max,
        max <= u32::MAX,
    ensures
        parse_opt_text(ser_opt_text(value) + rest, max) == Some((value, rest)),
{
    reveal(parse_opt_text);
    reveal(parse_u8);
    reveal(parse_text);
    match value {
        None => {
            assert((ser_opt_text(value) + rest).skip(1) =~= rest);
        },
        Some(t) => {
            let tail = ser_text(t) + rest;
            assert(ser_opt_text(value) + rest =~= seq![1u8] + tail);
            assert((seq![1u8] + tail).skip(1) =~= tail);
            lemma_parse_ser_text(t, max, rest);
        },
    }
}

pub proof fn lemma_ser_parse_bytes(s: Seq<u8>, n: nat)
    ensures
        parse_bytes(s, n) matches Some((bytes, rest)) ==> s == bytes + rest && bytes.len() == n,
{
    reveal(parse_bytes);
    if s.len() >= n {
        assert(s =~= s.take(n as int) + s.skip(n as int));
    }
}

pub proof fn lemma_ser_parse_u8(s: Seq<u8>)
    ensures
        parse_u8(s) matches Some((x, rest)) ==> s == ser_u8(x) + rest,
{
    reveal(parse_u8);
    if s.len() >= 1 {
        assert(s =~= ser_u8(s[0]) + s.skip(1));
    }
}

pub proof fn lemma_ser_parse_bool(s: Seq<u8>)
    ensures
        parse_bool(s) matches Some((b, rest)) ==> s == ser_bool(b) + rest,
{
    reveal(parse_bool);
    if s.len() >= 1 && s[0] <= 1 {
        assert(s =~= ser_bool(s[0] == 1) + s.skip(1));
    }
}

pub proof fn lemma_ser_parse_u32(s: Seq<u8>)
    ensures
        parse_u32(s) matches Some((x, rest)) ==> s == ser_u32(x) + rest,
{
    reveal(parse_u32);
    if s.len() >= 4 {
        lemma_auto_spec_u32_to_from_le_bytes();
        assert(s =~= s.take(4) + s.skip(4));
    }
}

pub proof fn lemma_ser_parse_u64(s: Seq<u8>)
    ensures
        parse_u64(s) matches Some((x, rest)) ==> s == ser_u64(x) + rest,
{
    reveal(parse_u64);
    if s.len() >= 8 {
        lemma_auto_spec_u64_to_from_le_bytes();
        assert(s =~= s.take(8) + s.skip(8));
    }
}

pub proof fn lemma_ser_parse_i64(s: Seq<u8>)
    ensures
        parse_i64(s) matches Some((x, rest)) ==> s == ser_i64(x) + rest,
{
    reveal(parse_i64);
    reveal(parse_u64);
    lemma_ser_parse_u64(s);
}

pub proof fn lemma_ser_parse_text(s: Seq<u8>, max: nat)
    ensures
        parse_text(s, max) matches Some((text, rest)) ==> s == ser_text(text) + rest
            && encode_utf8(text).len() <= max,
{
    reveal(parse_text);
    reveal(parse_u32);
    if let Some((text, rest)) = parse_text(s, max) {
        let (n, after) = parse_u32(s).unwrap();
        lemma_ser_parse_u32(s);
        let body = after.take(n as int);
        decode_utf8_encode_utf8(body);
        assert(after =~= body + rest);
        assert(s =~= ser_text(text) + rest);
    }
}

pub proof fn lemma_ser_parse_opt_i64(s: Seq<u8>)
    ensures
        parse_opt_i64(s) matches Some((value, rest)) ==> s == ser_opt_i64(value) + rest,
{
    reveal(parse_opt_i64);
    reveal(parse_u8);
    reveal(parse_i64);
    if let Some((value, rest)) = parse_opt_i64(s) {
        lemma_ser_parse_u8(s);
        let (flag, after) = parse_u8(s).unwrap();
        if flag == 1 {
            lemma_ser_parse_i64(after);
            assert(s =~= ser_opt_i64(value) + rest);
        }
    }
}

pub proof fn lemma_ser_parse_opt_text(s: Seq<u8>, max: nat)
    ensures
        parse_opt_text(s, max) matches Some((value, rest)) ==> s == ser_opt_text(value) + rest
            && (value matches Some(t) ==> encode_utf8(t).len() <= max),
{
    reveal(parse_opt_text);
    reveal(parse_u8);
    reveal(parse_text);
    if let Some((value, rest)) = parse_opt_text(s, max) {
        lemma_ser_parse_u8(s);
        let (flag, after) = parse_u8(s).unwrap();
        if flag == 1 {
            lemma_ser_parse_text(after, max);
            assert(s =~= ser_opt_text(value) + rest);
        }
    }
}


// ---------------------------------------------------------------------------
// Writing
// ---------------------------------------------------------------------------

pub fn i64_to_bits(x: i64) -> (u: u64)
    ensures
        u == i64_bits(x),
{
    if x >= 0 {
        x as u64
    } else {
        ((x - i64::MIN) as u64) + 0x8000_0000_0000_0000u64
    }
}

pub fn i64_from_bits(u: u64) -> (x: i64)
    ensures
        x == i64_of_bits(u),
{
    if u < 0x8000_0000_0000_0000u64 {
        u as i64
    } else {
        ((u - 0x8000_0000_0000_0000u64) as i64) + i64::MIN
    }
}

/// Appends the bytes of a slice.
pub fn put_bytes(out: &mut Vec<u8>, src: &[u8])
    ensures
        final(out)@ == old(out)@ + src@,
{
    let mut i: usize = 0;
    while i < src.len()
        invariant
            i <= src.len(),
            out@ == old(out)@ + src@.take(i as int),
        decreases src.len() - i,
    {
        out.push(src[i]);
        i += 1;
        assert(src@.take(i as int) =~= src@.take(i - 1).push(src@[i - 1]));
    }
    assert(src@.take(src.len() as int) =~= src@);
}

pub fn put_u8(out: &mut Vec<u8>, x: u8)
    ensures
        final(out)@ == old(out)@ + ser_u8(x),
{
    out.push(x);
    assert(out@ =~= old(out)@ + ser_u8(x));
}

pub fn put_bool(out: &mut Vec<u8>, b: bool)
    ensures
        final(out)@ == old(out)@ + ser_bool(b),
{
    out.push(if b { 1u8 } else { 0u8 });
    assert(out@ =~= old(out)@ + ser_bool(b));
}

pub fn put_u32(out: &mut Vec<u8>, x: u32)
    ensures
        final(out)@ == old(out)@ + ser_u32(x),
{
    let mut bytes = u32_to_le_bytes(x);
    out.append(&mut bytes);
}

pub fn put_u64(out: &mut Vec<u8>, x: u64)
    ensures
        final(out)@ == old(out)@ + ser_u64(x),
{
    let mut bytes = u64_to_le_bytes(x);
    out.append(&mut bytes);
}

pub fn put_i64(out: &mut Vec<u8>, x: i64)
    ensures
        final(out)@ == old(out)@ + ser_i64(x),
{
    put_u64(out, i64_to_bits(x));
}

pub fn put_text(out: &mut Vec<u8>, text: &String)
    requires
        encode_utf8(text@).len() <= u32::MAX,
    ensures
        final(out)@ == old(out)@ + ser_text(text@),
{
    let bytes = text.as_str().as_bytes();
    put_u32(out, bytes.len() as u32);
    put_bytes(out, bytes);
    assert(out@ =~= old(out)@ + ser_text(text@));
}

pub fn put_opt_i64(out: &mut Vec<u8>, value: &Option<i64>)
    ensures
        final(out)@ == old(out)@ + ser_opt_i64(*value),
{
    match value {
        None => {
            out.push(0u8);
        },
        Some(x) => {
            out.push(1u8);
            put_i64(out, *x);
        },
    }
    assert(out@ =~= old(out)@ + ser_opt_i64(*value));
}

pub fn put_opt_text(out: &mut Vec<u8>, value: &Option<String>)
    requires
        value matches Some(t) ==> encode_utf8(t@).len() <= u32::MAX,
    ensures
        final(out)@ == old(out)@ + ser_opt_text(
            match *value {
                Some(t) => Some(t@),
                None => None,
            },
        ),
{
    match value {
        None => {
            out.push(0u8);
            assert(out@ =~= old(out)@ + seq![0u8]);
        },
        Some(t) => {
            out.push(1u8);
            put_text(out, t);
            assert(out@ =~= old(out)@ + (seq![1u8] + ser_text(t@)));
        },
    }
}

// ---------------------------------------------------------------------------
// Reading
// ---------------------------------------------------------------------------

/// Whether a read that began at `pos` of `data` came out as the spec function `want`
/// says of the bytes from `pos` on: the same value, and a new position with the same
/// rest behind it.
pub open spec fn read_as<T>(
    got: Option<(T, usize)>,
    want: Option<(T, Seq<u8>)>,
    data: Seq<u8>,
    pos: usize,
) -> bool {
    match want {
        Some((value, rest)) => {
            &&& got matches Some((v, next))
            &&& v == value
            &&& pos <= next <= data.len()
            &&& data.skip(next as int) == rest
        },
        None => got is None,
    }
}

/// As `read_as`, for a text, which is compared by its view.
pub open spec fn read_text_as(
    got: Option<(String, usize)>,
    want: Option<(Seq<char>, Seq<u8>)>,
    data: Seq<u8>,
    pos: usize,
) -> bool {
    match want {
        Some((value, rest)) => {
            &&& got matches Some((v, next))
            &&& v@ == value
            &&& pos <= next <= data.len()
            &&& data.skip(next as int) == rest
        },
        None => got is None,
    }
}

/// As `read_as`, for an optional text.
pub open spec fn read_opt_text_as(
    got: Option<(Option<String>, usize)>,
    want: Option<(Option<Seq<char>>, Seq<u8>)>,
    data: Seq<u8>,
    pos: usize,
) -> bool {
    match want {
        Some((value, rest)) => {
            &&& got matches Some((v, next))
            &&& value == match v {
                Some(t) => Some(t@),
                None => None,
            }
            &&& pos <= next <= data.len()
            &&& data.skip(next as int) == rest
        },
        None => got is None,
    }
}

proof fn lemma_skip_parts(data: Seq<u8>, pos: int, n: int)
    requires
        0 <= pos,
        0 <= n,
        pos + n <= data.len(),
    ensures
        data.skip(pos).take(n) == data.subrange(pos, pos + n),
        data.skip(pos).skip(n) == data.skip(pos + n),
        n >= 1 ==> data.skip(pos)[0] == data[pos],
{
    assert(data.skip(pos).take(n) =~= data.subrange(pos, pos + n));
    assert(data.skip(pos).skip(n) =~= data.skip(pos + n));
}

pub fn read_u8(data: &[u8], pos: usize) -> (r: Option<(u8, usize)>)
    requires
        pos <= data.len(),
    ensures
        read_as(r, parse_u8(data@.skip(pos as int)), data@, pos),
{
    proof {
        reveal(parse_u8);
    }
    if data.len() - pos < 1 {
        return None;
    }
    proof {
        lemma_skip_parts(data@, pos as int, 1);
    }
    Some((data[pos], pos + 1))
}

pub fn read_bool(data: &[u8], pos: usize) -> (r: Option<(bool, usize)>)
    requires
        pos <= data.len(),
    ensures
        read_as(r, parse_bool(data@.skip(pos as int)), data@, pos),
{
    proof {
        reveal(parse_bool);
    }
    if data.len() - pos < 1 {
        return None;
    }
    proof {
        lemma_skip_parts(data@, pos as int, 1);
    }
    let b = data[pos];
    if b > 1 {
        return None;
    }
    Some((b == 1, pos + 1))
}

pub fn read_u32(data: &[u8], pos: usize) -> (r: Option<(u32, usize)>)
    requires
        pos <= data.len(),
    ensures
        read_as(r, parse_u32(data@.skip(pos as int)), data@, pos),
{
    proof {
        reveal(parse_u32);
    }
    if data.len() - pos < 4 {
        return None;
    }
    proof {
        lemma_skip_parts(data@, pos as int, 4);
    }
    let x = u32_from_le_bytes(slice_subrange(data, pos, pos + 4));
    Some((x, pos + 4))
}

pub fn read_u64(data: &[u8], pos: usize) -> (r: Option<(u64, usize)>)
    requires
        pos <= data.len(),
    ensures
        read_as(r, parse_u64(data@.skip(pos as int)), data@, pos),
{
    proof {
        reveal(parse_u64);
    }
    if data.len() - pos < 8 {
        return None;
    }
    proof {
        lemma_skip_parts(data@, pos as int, 8);
    }
    let x = u64_from_le_bytes(slice_subrange(data, pos, pos + 8));
    Some((x, pos + 8))
}

pub fn read_i64(data: &[u8], pos: usize) -> (r: Option<(i64, usize)>)
    requires
        pos <= data.len(),
    ensures
        read_as(r, parse_i64(data@.skip(pos as int)), data@, pos),
{
    proof {
        reveal(parse_i64);
        reveal(parse_u64);
    }
    match read_u64(data, pos) {
        Some((u, next)) => Some((i64_from_bits(u), next)),
        None => None,
    }
}

/// `String::from_utf8`: the text whose UTF-8 bytes are the given ones, if they are
/// UTF-8 at all, and `None` if they are not.
#[verifier::external_body]
fn string_from_utf8(bytes: Vec<u8>) -> (r: Option<String>)
    ensures
        r is Some <==> valid_utf8(bytes@),
        r matches Some(text) ==> encode_utf8(text@) == bytes@,
{
    String::from_utf8(bytes).ok()
}

pub fn read_text(data: &[u8], pos: usize, max: usize) -> (r: Option<(String, usize)>)
    requires
        pos <= data.len(),
    ensures
        read_text_as(r, parse_text(data@.skip(pos as int), max as nat), data@, pos),
{
    proof {
        reveal(parse_text);
        reveal(parse_u32);
    }
    let (n, start) = match read_u32(data, pos) {
        Some(x) => x,
        None => {
            return None;
        },
    };
    let n = n as usize;
    if n > max || n > data.len() - start {
        return None;
    }
    proof {
        lemma_skip_parts(data@, start as int, n as int);
    }
    let body = slice_to_vec(slice_subrange(data, start, start + n));
    match string_from_utf8(body) {
        Some(text) => {
            proof {
                encode_utf8_decode_utf8(text@);
            }
            Some((text, start + n))
        },
        None => None,
    }
}

pub fn read_opt_i64(data: &[u8], pos: usize) -> (r: Option<(Option<i64>, usize)>)
    requires
        pos <= data.len(),
    ensures
        read_as(r, parse_opt_i64(data@.skip(pos as int)), data@, pos),
{
    proof {
        reveal(parse_opt_i64);
        reveal(parse_u8);
        reveal(parse_i64);
    }
    let (flag, start) = match read_u8(data, pos) {
        Some(x) => x,
        None => {
            return None;
        },
    };
    if flag == 0 {
        Some((None, start))
    } else if flag == 1 {
        match read_i64(data, start) {
            Some((x, next)) => Some((Some(x), next)),
            None => None,
        }
    } else {
        None
    }
}

pub fn read_opt_text(data: &[u8], pos: usize, max: usize) -> (r: Option<(Option<String>, usize)>)
    requires
        pos <= data.len(),
    ensures
        read_opt_text_as(r, parse_opt_text(data@.skip(pos as int), max as nat), data@, pos),
{
    proof {
        reveal(parse_opt_text);
        reveal(parse_u8);
        reveal(parse_text);
    }
    let (flag, start) = match read_u8(data, pos) {
        Some(x) => x,
        None => {
            return None;
        },
    };
    if flag == 0 {
        Some((None, start))
    } else if flag == 1 {
        match read_text(data, start, max) {
            Some((text, next)) => Some((Some(text), next)),
            None => None,
        }
    } else {
        None
    }
}

} // verus!
