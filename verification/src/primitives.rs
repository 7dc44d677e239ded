//! Big-endian integer encoding and the byte-cursor primitives every box
//! codec is built from. A source is a byte buffer together with a position;
//! a sink is a byte vector that write operations append to.
use vstd::prelude::*;

use crate::types::Error;

verus! {

pub open spec fn spec_u16_to_be_bytes(x: u16) -> Seq<u8> {
    seq![((x >> 8) & 0xff) as u8, (x & 0xff) as u8]
}

pub open spec fn spec_u16_from_be_bytes(s: Seq<u8>) -> u16
    recommends
        s.len() == 2,
{
    (((s[0] as u16) << 8) | (s[1] as u16)) as u16
}

pub open spec fn spec_u32_to_be_bytes(x: u32) -> Seq<u8> {
    seq![
        ((x >> 24) & 0xff) as u8,
        ((x >> 16) & 0xff) as u8,
        ((x >> 8) & 0xff) as u8,
        (x & 0xff) as u8,
    ]
}

pub open spec fn spec_u32_from_be_bytes(s: Seq<u8>) -> u32
    recommends
        s.len() == 4,
{
    (((s[0] as u32) << 24) | ((s[1] as u32) << 16) | ((s[2] as u32) << 8) | (s[3] as u32)) as u32
}

pub open spec fn spec_u64_to_be_bytes(x: u64) -> Seq<u8> {
    seq![
        ((x >> 56) & 0xff) as u8,
        ((x >> 48) & 0xff) as u8,
        ((x >> 40) & 0xff) as u8,
        ((x >> 32) & 0xff) as u8,
        ((x >> 24) & 0xff) as u8,
        ((x >> 16) & 0xff) as u8,
        ((x >> 8) & 0xff) as u8,
        (x & 0xff) as u8,
    ]
}

pub open spec fn spec_u64_from_be_bytes(s: Seq<u8>) -> u64
    recommends
        s.len() == 8,
{
    (((s[0] as u64) << 56) | ((s[1] as u64) << 48) | ((s[2] as u64) << 40) | ((s[3] as u64) << 32)
        | ((s[4] as u64) << 24) | ((s[5] as u64) << 16) | ((s[6] as u64) << 8) | (s[7]
        as u64)) as u64
}

pub broadcast proof fn lemma_u16_be_bytes_roundtrip(x: u16)
    ensures
        (#[trigger] spec_u16_to_be_bytes(x)).len() == 2,
        spec_u16_from_be_bytes(spec_u16_to_be_bytes(x)) == x,
{
    assert(((((((x >> 8) & 0xff) as u8) as u16) << 8) | (((x & 0xff) as u8) as u16)) == x)
        by (bit_vector);
}

pub broadcast proof fn lemma_u32_be_bytes_roundtrip(x: u32)
    ensures
        (#[trigger] spec_u32_to_be_bytes(x)).len() == 4,
        spec_u32_from_be_bytes(spec_u32_to_be_bytes(x)) == x,
{
    assert(((((((x >> 24) & 0xff) as u8) as u32) << 24) | (((((x >> 16) & 0xff) as u8) as u32)
        << 16) | (((((x >> 8) & 0xff) as u8) as u32) << 8) | (((x & 0xff) as u8) as u32)) == x)
        by (bit_vector);
}

pub broadcast proof fn lemma_u64_be_bytes_roundtrip(x: u64)
    ensures
        (#[trigger] spec_u64_to_be_bytes(x)).len() == 8,
        spec_u64_from_be_bytes(spec_u64_to_be_bytes(x)) == x,
{
    assert(((((((x >> 56) & 0xff) as u8) as u64) << 56) | (((((x >> 48) & 0xff) as u8) as u64)
        << 48) | (((((x >> 40) & 0xff) as u8) as u64) << 40) | (((((x >> 32) & 0xff) as u8) as u64)
        << 32) | (((((x >> 24) & 0xff) as u8) as u64) << 24) | (((((x >> 16) & 0xff) as u8) as u64)
        << 16) | (((((x >> 8) & 0xff) as u8) as u64) << 8) | (((x & 0xff) as u8) as u64)) == x)
        by (bit_vector);
}

/// The 16-bit big-endian value stored at offset `i` of `data`.
pub open spec fn be16_at(data: Seq<u8>, i: int) -> u16 {
    spec_u16_from_be_bytes(data.subrange(i, i + 2))
}

/// The 32-bit big-endian value stored at offset `i` of `data`.
pub open spec fn be32_at(data: Seq<u8>, i: int) -> u32 {
    spec_u32_from_be_bytes(data.subrange(i, i + 4))
}

/// The 64-bit big-endian value stored at offset `i` of `data`.
pub open spec fn be64_at(data: Seq<u8>, i: int) -> u64 {
    spec_u64_from_be_bytes(data.subrange(i, i + 8))
}

/// A sequence of `n` zero bytes.
pub open spec fn zero_bytes(n: int) -> Seq<u8> {
    Seq::new(n as nat, |i: int| 0u8)
}

/// One byte per char, truncating the code point: how the original stores
/// its URI and name strings on the wire.
pub open spec fn char_bytes(s: Seq<char>) -> Seq<u8> {
    Seq::new(s.len(), |i: int| ((s[i] as u32) % 256) as u8)
}

/// Each byte read back as the char with the same value.
pub open spec fn bytes_chars(s: Seq<u8>) -> Seq<char> {
    Seq::new(s.len(), |i: int| (s[i] as u32) as char)
}

/// The strings the wire format carries one byte per char, terminated by a
/// zero byte: no NUL, and every code point below 256.
pub open spec fn wire_str_ok(s: Seq<char>) -> bool {
    forall|i: int| 0 <= i < s.len() ==> 0 < (#[trigger] s[i] as u32) < 256
}

pub proof fn lemma_char_bytes_roundtrip(s: Seq<char>)
    requires
        wire_str_ok(s),
    ensures
        bytes_chars(char_bytes(s)) == s,
        forall|i: int| 0 <= i < s.len() ==> char_bytes(s)[i] != 0,
{
    assert forall|i: int| 0 <= i < s.len() implies bytes_chars(char_bytes(s))[i] == s[i]
        && char_bytes(s)[i] != 0 by {
        let u: u32 = s[i] as u32;
        assert(0 < u < 256);
        assert(char_bytes(s)[i] as u32 == u);
        vstd::utf8::char_u32_cast(s[i], u);
    }
    assert(bytes_chars(char_bytes(s)) =~= s);
}

/// Relies on `str::chars` and the char-to-byte cast: hands back one byte
/// per char of the string, each the char's truncated code point.
#[verifier::external_body]
pub fn string_wire_bytes(s: &String) -> (r: Vec<u8>)
    ensures
        r@ == char_bytes(s@),
{
    s.chars().map(|c| c as u8).collect()
}

/// Relies on `String`'s construction from chars: each byte becomes the
/// char with the byte's value.
#[verifier::external_body]
pub fn string_from_wire_bytes(v: &Vec<u8>) -> (r: String)
    ensures
        r@ == bytes_chars(v@),
{
    v.iter().map(|b| *b as char).collect()
}

/// Decodes a zero-terminated byte string beginning at `pos`: the bytes
/// before the terminator, and the position just past it. `None` when the
/// buffer ends before any terminator.
pub open spec fn parse_cstr(data: Seq<u8>, pos: int) -> Option<(Seq<u8>, int)>
    decreases data.len() - pos,
{
    if pos < 0 || pos >= data.len() {
        None
    } else if data[pos] == 0 {
        Some((Seq::empty(), pos + 1))
    } else {
        match parse_cstr(data, pos + 1) {
            Some((s, e)) => Some((seq![data[pos]] + s, e)),
            None => None,
        }
    }
}

/// A zero byte at `e`, with none before it, decodes to exactly the bytes
/// up to `e`.
pub proof fn lemma_parse_cstr_of(data: Seq<u8>, pos: int, e: int)
    requires
        0 <= pos <= e < data.len(),
        data[e] == 0,
        forall|j: int| pos <= j < e ==> data[j] != 0,
    ensures
        parse_cstr(data, pos) == Some((data.subrange(pos, e), e + 1)),
    decreases e - pos,
{
    if pos == e {
        assert(data.subrange(pos, e) =~= Seq::empty());
    } else {
        lemma_parse_cstr_of(data, pos + 1, e);
        assert(seq![data[pos]] + data.subrange(pos + 1, e) =~= data.subrange(pos, e));
    }
}

/// Without a zero byte anywhere after `pos`, decoding fails.
pub proof fn lemma_parse_cstr_none(data: Seq<u8>, pos: int)
    requires
        forall|j: int| pos <= j < data.len() ==> data[j] != 0,
    ensures
        parse_cstr(data, pos) is None,
    decreases data.len() - pos,
{
    if 0 <= pos < data.len() {
        lemma_parse_cstr_none(data, pos + 1);
    }
}

/// Reads bytes up to and past a zero terminator, returning the bytes
/// before it.
pub fn get_cstr(data: &Vec<u8>, pos: &mut usize) -> (r: Result<Vec<u8>, Error>)
    ensures
        match r {
            Ok(v) => parse_cstr(data@, *old(pos) as int) == Some((v@, *final(pos) as int))
                && *old(pos) <= *final(pos) <= data@.len(),
            Err(e) => parse_cstr(data@, *old(pos) as int) is None && *final(pos) == *old(pos)
                && e is UnexpectedEof,
        },
{
    let p0: usize = *pos;
    let mut cur: usize = p0;
    let mut v: Vec<u8> = Vec::new();
    if p0 > data.len() {
        proof {
            lemma_parse_cstr_none(data@, p0 as int);
        }
        return Err(Error::UnexpectedEof);
    }
    proof {
        assert(v@ =~= data@.subrange(p0 as int, p0 as int));
    }
    loop
        invariant
            *pos == p0,
            p0 == *old(pos),
            p0 <= cur <= data@.len(),
            v@ == data@.subrange(p0 as int, cur as int),
            forall|j: int| p0 <= j < cur ==> data@[j] != 0,
        decreases data@.len() - cur,
    {
        if cur >= data.len() {
            proof {
                lemma_parse_cstr_none(data@, p0 as int);
            }
            return Err(Error::UnexpectedEof);
        }
        let c = data[cur];
        if c == 0 {
            proof {
                lemma_parse_cstr_of(data@, p0 as int, cur as int);
            }
            *pos = cur + 1;
            return Ok(v);
        }
        v.push(c);
        cur = cur + 1;
        proof {
            assert(v@ =~= data@.subrange(p0 as int, cur as int));
        }
    }
}

pub fn get_u8(data: &Vec<u8>, pos: &mut usize) -> (r: Result<u8, Error>)
    ensures
        match r {
            Ok(v) => *old(pos) + 1 <= data@.len() && v == data@[*old(pos) as int] && *final(pos)
                == *old(pos) + 1,
            Err(e) => *old(pos) + 1 > data@.len() && *final(pos) == *old(pos)
                && e is UnexpectedEof,
        },
{
    if *pos < data.len() {
        let v: u8 = data[*pos];
        *pos = *pos + 1;
        Ok(v)
    } else {
        Err(Error::UnexpectedEof)
    }
}

pub fn get_u16(data: &Vec<u8>, pos: &mut usize) -> (r: Result<u16, Error>)
    ensures
        match r {
            Ok(v) => *old(pos) + 2 <= data@.len() && v == be16_at(data@, *old(pos) as int)
                && *final(pos) == *old(pos) + 2,
            Err(e) => *old(pos) + 2 > data@.len() && *final(pos) == *old(pos)
                && e is UnexpectedEof,
        },
{
    if data.len() >= 2 && *pos <= data.len() - 2 {
        let b0: u16 = data[*pos] as u16;
        let b1: u16 = data[*pos + 1] as u16;
        let v: u16 = (b0 << 8) | b1;
        proof {
            let s = data@.subrange(*pos as int, *pos + 2);
            assert(s[0] == data@[*pos as int]);
            assert(s[1] == data@[*pos + 1]);
        }
        *pos = *pos + 2;
        Ok(v)
    } else {
        Err(Error::UnexpectedEof)
    }
}

pub fn get_u32(data: &Vec<u8>, pos: &mut usize) -> (r: Result<u32, Error>)
    ensures
        match r {
            Ok(v) => *old(pos) + 4 <= data@.len() && v == be32_at(data@, *old(pos) as int)
                && *final(pos) == *old(pos) + 4,
            Err(e) => *old(pos) + 4 > data@.len() && *final(pos) == *old(pos)
                && e is UnexpectedEof,
        },
{
    if data.len() >= 4 && *pos <= data.len() - 4 {
        let b0: u32 = data[*pos] as u32;
        let b1: u32 = data[*pos + 1] as u32;
        let b2: u32 = data[*pos + 2] as u32;
        let b3: u32 = data[*pos + 3] as u32;
        let v: u32 = (b0 << 24) | (b1 << 16) | (b2 << 8) | b3;
        proof {
            let s = data@.subrange(*pos as int, *pos + 4);
            assert(s[0] == data@[*pos as int]);
            assert(s[1] == data@[*pos + 1]);
            assert(s[2] == data@[*pos + 2]);
            assert(s[3] == data@[*pos + 3]);
        }
        *pos = *pos + 4;
        Ok(v)
    } else {
        Err(Error::UnexpectedEof)
    }
}

pub fn get_u64(data: &Vec<u8>, pos: &mut usize) -> (r: Result<u64, Error>)
    ensures
        match r {
            Ok(v) => *old(pos) + 8 <= data@.len() && v == be64_at(data@, *old(pos) as int)
                && *final(pos) == *old(pos) + 8,
            Err(e) => *old(pos) + 8 > data@.len() && *final(pos) == *old(pos)
                && e is UnexpectedEof,
        },
{
    if data.len() >= 8 && *pos <= data.len() - 8 {
        let b0: u64 = data[*pos] as u64;
        let b1: u64 = data[*pos + 1] as u64;
        let b2: u64 = data[*pos + 2] as u64;
        let b3: u64 = data[*pos + 3] as u64;
        let b4: u64 = data[*pos + 4] as u64;
        let b5: u64 = data[*pos + 5] as u64;
        let b6: u64 = data[*pos + 6] as u64;
        let b7: u64 = data[*pos + 7] as u64;
        let v: u64 = (b0 << 56) | (b1 << 48) | (b2 << 40) | (b3 << 32) | (b4 << 24) | (b5 << 16)
            | (b6 << 8) | b7;
        proof {
            let s = data@.subrange(*pos as int, *pos + 8);
            assert(s[0] == data@[*pos as int]);
            assert(s[1] == data@[*pos + 1]);
            assert(s[2] == data@[*pos + 2]);
            assert(s[3] == data@[*pos + 3]);
            assert(s[4] == data@[*pos + 4]);
            assert(s[5] == data@[*pos + 5]);
            assert(s[6] == data@[*pos + 6]);
            assert(s[7] == data@[*pos + 7]);
        }
        *pos = *pos + 8;
        Ok(v)
    } else {
        Err(Error::UnexpectedEof)
    }
}

/// Reads `n` bytes, as the original's `read_exact` does.
pub fn get_bytes(data: &Vec<u8>, pos: &mut usize, n: usize) -> (r: Result<Vec<u8>, Error>)
    ensures
        match r {
            Ok(v) => *old(pos) + n <= data@.len() && v@ == data@.subrange(
                *old(pos) as int,
                *old(pos) + n,
            ) && *final(pos) == *old(pos) + n,
            Err(e) => *old(pos) + n > data@.len() && *final(pos) == *old(pos)
                && e is UnexpectedEof,
        },
{
    if n <= data.len() && *pos <= data.len() - n {
        let base: usize = *pos;
        let mut v: Vec<u8> = Vec::new();
        let mut i: usize = 0;
        while i < n
            invariant
                i <= n,
                base + n <= data@.len(),
                base + n <= usize::MAX,
                v@ == data@.subrange(base as int, base + i),
            decreases n - i,
        {
            v.push(data[base + i]);
            i = i + 1;
            proof {
                assert(v@ =~= data@.subrange(base as int, base + i));
            }
        }
        *pos = base + n;
        Ok(v)
    } else {
        Err(Error::UnexpectedEof)
    }
}

pub fn put_u8(out: &mut Vec<u8>, v: u8)
    ensures
        final(out)@ == old(out)@.push(v),
{
    out.push(v);
}

pub fn put_u16(out: &mut Vec<u8>, v: u16)
    ensures
        final(out)@ == old(out)@ + spec_u16_to_be_bytes(v),
{
    out.push(((v >> 8) & 0xff) as u8);
    out.push((v & 0xff) as u8);
    proof {
        assert(out@ =~= old(out)@ + spec_u16_to_be_bytes(v));
    }
}

pub fn put_u32(out: &mut Vec<u8>, v: u32)
    ensures
        final(out)@ == old(out)@ + spec_u32_to_be_bytes(v),
{
    out.push(((v >> 24) & 0xff) as u8);
    out.push(((v >> 16) & 0xff) as u8);
    out.push(((v >> 8) & 0xff) as u8);
    out.push((v & 0xff) as u8);
    proof {
        assert(out@ =~= old(out)@ + spec_u32_to_be_bytes(v));
    }
}

pub fn put_u64(out: &mut Vec<u8>, v: u64)
    ensures
        final(out)@ == old(out)@ + spec_u64_to_be_bytes(v),
{
    out.push(((v >> 56) & 0xff) as u8);
    out.push(((v >> 48) & 0xff) as u8);
    out.push(((v >> 40) & 0xff) as u8);
    out.push(((v >> 32) & 0xff) as u8);
    out.push(((v >> 24) & 0xff) as u8);
    out.push(((v >> 16) & 0xff) as u8);
    out.push(((v >> 8) & 0xff) as u8);
    out.push((v & 0xff) as u8);
    proof {
        assert(out@ =~= old(out)@ + spec_u64_to_be_bytes(v));
    }
}

pub fn put_bytes(out: &mut Vec<u8>, v: &[u8])
    ensures
        final(out)@ == old(out)@ + v@,
{
    let n: usize = v.len();
    let mut i: usize = 0;
    while i < n
        invariant
            i <= n,
            n == v@.len(),
            out@ == old(out)@ + v@.subrange(0, i as int),
        decreases n - i,
    {
        out.push(v[i]);
        i = i + 1;
        proof {
            assert(out@ =~= old(out)@ + v@.subrange(0, i as int));
        }
    }
    proof {
        assert(v@.subrange(0, n as int) =~= v@);
    }
}

/// Appends the first `n` bytes of `v`.
pub fn put_prefix(out: &mut Vec<u8>, v: &Vec<u8>, n: usize)
    requires
        n <= v@.len(),
    ensures
        final(out)@ == old(out)@ + v@.subrange(0, n as int),
{
    let mut i: usize = 0;
    while i < n
        invariant
            i <= n,
            n <= v@.len(),
            out@ == old(out)@ + v@.subrange(0, i as int),
        decreases n - i,
    {
        out.push(v[i]);
        i = i + 1;
        proof {
            assert(out@ =~= old(out)@ + v@.subrange(0, i as int));
        }
    }
}

pub fn put_zeros(out: &mut Vec<u8>, n: usize)
    ensures
        final(out)@ == old(out)@ + zero_bytes(n as int),
{
    let mut i: usize = 0;
    while i < n
        invariant
            i <= n,
            out@ == old(out)@ + zero_bytes(i as int),
        decreases n - i,
    {
        out.push(0u8);
        i = i + 1;
        proof {
            assert(out@ =~= old(out)@ + zero_bytes(i as int));
        }
    }
}

/// Moves the cursor to `start + size`, the declared end of a box whose
/// header begins at `start`. A declared end past the end of the buffer is
/// a truncated box: an error, and the cursor stays.
pub fn skip_to_end(data: &Vec<u8>, pos: &mut usize, start: usize, size: u64) -> (r: Result<
    (),
    Error,
>)
    ensures
        match r {
            Ok(_) => start + size <= data@.len() && *final(pos) == start + size,
            Err(e) => start + size > data@.len() && *final(pos) == *old(pos)
                && e is UnexpectedEof,
        },
{
    let dlen: usize = data.len();
    match (start as u64).checked_add(size) {
        Some(end) => {
            if end <= dlen as u64 {
                *pos = end as usize;
                Ok(())
            } else {
                Err(Error::UnexpectedEof)
            }
        },
        None => Err(Error::UnexpectedEof),
    }
}

} // verus!
