use vstd::prelude::*;
use vstd::bytes::{spec_u16_to_le_bytes, spec_u32_to_le_bytes};
use crate::codec::{
    le_u16_at, le_u32_at, put_u16, put_u32, spec_le_u16_at, spec_le_u32_at,
    lemma_le_u16_roundtrip, lemma_le_u32_roundtrip,
};
use crate::error::Error;

verus! {

// Chunk file header: 16 bytes.
//   magic      : 4 bytes, "TSDB"
//   version    : u16 little-endian, 1
//   header_len : u16 little-endian, 16
//   meta_len   : u32 little-endian
//   meta_crc32 : u32 little-endian, CRC-32/IEEE of the meta bytes only

pub const HEADER_LEN: usize = 16;

pub const VERSION: u16 = 1;

/// The magic bytes, "TSDB".
pub open spec fn spec_magic() -> Seq<u8> {
    seq![0x54u8, 0x53u8, 0x44u8, 0x42u8]
}

#[derive(Debug, Clone, Copy, PartialEq, Eq, Structural)]
pub struct Header {
    pub meta_len: u32,
    pub meta_crc32: u32,
}

/// The 16-byte encoding of a header.
pub open spec fn spec_header_bytes(h: Header) -> Seq<u8> {
    spec_magic() + spec_u16_to_le_bytes(VERSION) + spec_u16_to_le_bytes(16u16)
        + spec_u32_to_le_bytes(h.meta_len) + spec_u32_to_le_bytes(h.meta_crc32)
}

/// The first 16 bytes of `b` are a valid header encoding.
pub open spec fn spec_header_ok(b: Seq<u8>) -> bool {
    &&& b.len() >= 16
    &&& b.subrange(0, 4) == spec_magic()
    &&& spec_le_u16_at(b, 4) == VERSION
    &&& spec_le_u16_at(b, 6) == 16
}

/// The header fields read from the first 16 bytes of `b`.
pub open spec fn spec_header_of(b: Seq<u8>) -> Header {
    Header { meta_len: spec_le_u32_at(b, 8), meta_crc32: spec_le_u32_at(b, 12) }
}

/// Appends the 16-byte header encoding to `out`.
pub fn write_header(out: &mut Vec<u8>, header: &Header)
    ensures
        final(out)@ == old(out)@ + spec_header_bytes(*header),
{
    let ghost orig = out@;
    out.push(0x54);
    out.push(0x53);
    out.push(0x44);
    out.push(0x42);
    put_u16(out, VERSION);
    put_u16(out, 16);
    put_u32(out, header.meta_len);
    put_u32(out, header.meta_crc32);
    proof {
        assert(out@ =~= orig + spec_header_bytes(*header));
    }
}

/// Parses and validates the header at the start of `b`.
///
/// Succeeds exactly when at least 16 bytes are present, the magic
/// matches, the version is 1 and the recorded header length is 16; the
/// error distinguishes a short read (`Io`), a foreign magic or header
/// length (`Corrupt`), and an unknown version (`Unsupported`).
pub fn read_header(b: &[u8]) -> (r: Result<Header, Error>)
    ensures
        r is Ok <==> spec_header_ok(b@),
        match r {
            Ok(h) => h == spec_header_of(b@),
            Err(e) => {
                ||| (b@.len() < 16 && e is Io)
                ||| (b@.len() >= 16 && b@.subrange(0, 4) != spec_magic() && e is Corrupt)
                ||| (b@.len() >= 16 && b@.subrange(0, 4) == spec_magic()
                    && spec_le_u16_at(b@, 4) != VERSION && e is Unsupported)
                ||| (b@.len() >= 16 && b@.subrange(0, 4) == spec_magic()
                    && spec_le_u16_at(b@, 4) == VERSION && spec_le_u16_at(b@, 6) != 16
                    && e is Corrupt)
            },
        },
{
    if b.len() < 16 {
        return Err(Error::Io("unexpected end of file in header".to_string()));
    }
    let magic_ok = b[0] == 0x54 && b[1] == 0x53 && b[2] == 0x44 && b[3] == 0x42;
    proof {
        assert(b@.subrange(0, 4).len() == 4);
        if magic_ok {
            assert(b@.subrange(0, 4) =~= spec_magic());
        } else {
            assert(b@.subrange(0, 4)[0] == b@[0]);
            assert(b@.subrange(0, 4)[1] == b@[1]);
            assert(b@.subrange(0, 4)[2] == b@[2]);
            assert(b@.subrange(0, 4)[3] == b@[3]);
            assert(b@.subrange(0, 4) != spec_magic());
        }
    }
    if !magic_ok {
        return Err(Error::Corrupt("bad magic".to_string()));
    }
    let version = le_u16_at(b, 4);
    if version != VERSION {
        return Err(Error::Unsupported("unsupported version".to_string()));
    }
    let header_len = le_u16_at(b, 6);
    if header_len != 16 {
        return Err(Error::Corrupt("header length mismatch".to_string()));
    }
    let meta_len = le_u32_at(b, 8);
    let meta_crc32 = le_u32_at(b, 12);
    Ok(Header { meta_len, meta_crc32 })
}

/// Reading back an encoded header yields the encoded fields.
pub proof fn lemma_header_roundtrip(h: Header, rest: Seq<u8>)
    ensures
        spec_header_bytes(h).len() == 16,
        spec_header_ok(spec_header_bytes(h) + rest),
        spec_header_of(spec_header_bytes(h) + rest) == h,
{
    lemma_le_u16_roundtrip(VERSION);
    lemma_le_u16_roundtrip(16);
    lemma_le_u32_roundtrip(h.meta_len);
    lemma_le_u32_roundtrip(h.meta_crc32);
    let full = spec_header_bytes(h) + rest;
    assert(full.subrange(0, 4) =~= spec_magic());
    assert(full.subrange(4, 6) =~= spec_u16_to_le_bytes(VERSION));
    assert(full.subrange(6, 8) =~= spec_u16_to_le_bytes(16u16));
    assert(full.subrange(8, 12) =~= spec_u32_to_le_bytes(h.meta_len));
    assert(full.subrange(12, 16) =~= spec_u32_to_le_bytes(h.meta_crc32));
}

} // verus!
