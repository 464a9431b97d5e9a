use vstd::prelude::*;
use crate::batch::RecordBatch;
use crate::codec::{
    le_i64_at, le_u32_at, le_u64_at, spec_le_i64_at, spec_le_u16_at, spec_le_u32_at,
    spec_le_u64_at,
};
use crate::crc::{crc32, crc32_of};
use crate::error::Error;
use crate::format::{read_header, spec_header_of, spec_header_ok, spec_magic, Header, VERSION};
use crate::meta::{
    decode_meta, spec_decoded_cols, spec_decoded_row_count, spec_decoded_ts_max,
    spec_decoded_ts_min, spec_meta_ok, ChunkMeta, ColumnMeta,
};
use vstd::slice::{slice_subrange, slice_to_vec};

verus! {

// The reader decodes chunk file images: it validates the header,
// checks the CRC of the meta section, decodes the meta, and serves
// positional column reads out of the image.

/// The meta section of a chunk image, as the header places it.
pub open spec fn spec_meta_region(b: Seq<u8>) -> Seq<u8> {
    b.subrange(16, 16 + spec_header_of(b).meta_len as int)
}

/// A chunk image opens successfully: valid header, non-empty meta
/// section wholly present, matching CRC, decodable meta.
pub open spec fn spec_chunk_source_ok(b: Seq<u8>) -> bool {
    &&& spec_header_ok(b)
    &&& spec_header_of(b).meta_len > 0
    &&& 16 + spec_header_of(b).meta_len as int <= b.len()
    &&& spec_header_of(b).meta_crc32 == crc32_of(spec_meta_region(b))
    &&& spec_meta_ok(spec_meta_region(b))
}

/// Which error each way of failing to open an image yields: a short
/// image is `Io`; a foreign magic or header length is `Corrupt`; an
/// unknown version is `Unsupported`; a zero-length meta announcement,
/// a checksum mismatch or an undecodable meta section is `Corrupt`;
/// a meta section cut off by the end of the image is `Io`.
pub open spec fn spec_open_failure(b: Seq<u8>, e: Error) -> bool {
    ||| (b.len() < 16 && e is Io)
    ||| (b.len() >= 16 && b.subrange(0, 4) != spec_magic() && e is Corrupt)
    ||| (b.len() >= 16 && b.subrange(0, 4) == spec_magic() && spec_le_u16_at(b, 4) != VERSION
        && e is Unsupported)
    ||| (b.len() >= 16 && b.subrange(0, 4) == spec_magic() && spec_le_u16_at(b, 4) == VERSION
        && spec_le_u16_at(b, 6) != 16 && e is Corrupt)
    ||| (spec_header_ok(b) && spec_header_of(b).meta_len == 0 && e is Corrupt)
    ||| (spec_header_ok(b) && spec_header_of(b).meta_len > 0 && 16 + spec_header_of(
        b,
    ).meta_len as int > b.len() && e is Io)
    ||| (spec_header_ok(b) && spec_header_of(b).meta_len > 0 && 16 + spec_header_of(
        b,
    ).meta_len as int <= b.len() && spec_header_of(b).meta_crc32 != crc32_of(spec_meta_region(b))
        && e is Corrupt)
    ||| (spec_header_ok(b) && spec_header_of(b).meta_len > 0 && 16 + spec_header_of(
        b,
    ).meta_len as int <= b.len() && spec_header_of(b).meta_crc32 == crc32_of(spec_meta_region(b))
        && !spec_meta_ok(spec_meta_region(b)) && e is Corrupt)
}

/// The meta decoded from a chunk image agrees with `m`.
pub open spec fn spec_meta_matches(b: Seq<u8>, m: ChunkMeta) -> bool {
    &&& m.row_count == spec_decoded_row_count(spec_meta_region(b))
    &&& m.ts_min == spec_decoded_ts_min(spec_meta_region(b))
    &&& m.ts_max == spec_decoded_ts_max(spec_meta_region(b))
    &&& m.cols@ == spec_decoded_cols(spec_meta_region(b))
}

/// An opened chunk: the raw image and its decoded meta.
pub struct ChunkFile {
    pub meta: ChunkMeta,
    pub bytes: Vec<u8>,
}

impl ChunkFile {
    /// The meta was decoded from this very image.
    pub open spec fn wf(self) -> bool {
        &&& spec_chunk_source_ok(self.bytes@)
        &&& spec_meta_matches(self.bytes@, self.meta)
    }
}

/// Validates the meta section against a parsed header and decodes it.
fn read_meta(bytes: &[u8], header: &Header) -> (r: Result<ChunkMeta, Error>)
    requires
        bytes@.len() >= 16,
    ensures
        r is Ok <==> {
            &&& header.meta_len > 0
            &&& 16 + header.meta_len as int <= bytes@.len()
            &&& header.meta_crc32 == crc32_of(
                bytes@.subrange(16, 16 + header.meta_len as int),
            )
            &&& spec_meta_ok(bytes@.subrange(16, 16 + header.meta_len as int))
        },
        match r {
            Ok(m) => {
                let region = bytes@.subrange(16, 16 + header.meta_len as int);
                &&& m.row_count == spec_decoded_row_count(region)
                &&& m.ts_min == spec_decoded_ts_min(region)
                &&& m.ts_max == spec_decoded_ts_max(region)
                &&& m.cols@ == spec_decoded_cols(region)
            },
            Err(e) => {
                ||| (header.meta_len == 0 && e is Corrupt)
                ||| (header.meta_len > 0 && 16 + header.meta_len as int > bytes@.len()
                    && e is Io)
                ||| ({
                    let region = bytes@.subrange(16, 16 + header.meta_len as int);
                    &&& header.meta_len > 0
                    &&& 16 + header.meta_len as int <= bytes@.len()
                    &&& header.meta_crc32 != crc32_of(region)
                    &&& e is Corrupt
                })
                ||| ({
                    let region = bytes@.subrange(16, 16 + header.meta_len as int);
                    &&& header.meta_len > 0
                    &&& 16 + header.meta_len as int <= bytes@.len()
                    &&& header.meta_crc32 == crc32_of(region)
                    &&& !spec_meta_ok(region)
                    &&& e is Corrupt
                })
            },
        },
{
    if header.meta_len == 0 {
        return Err(Error::Corrupt("meta_len is zero".to_string()));
    }
    let meta_len = header.meta_len as usize;
    let n: usize = bytes.len();
    if meta_len > n - 16 {
        return Err(Error::Io("unexpected end of file in meta".to_string()));
    }
    let region = slice_subrange(bytes, 16, 16 + meta_len);
    let expected_crc = crc32(region);
    if expected_crc != header.meta_crc32 {
        return Err(Error::Corrupt("meta crc mismatch".to_string()));
    }
    decode_meta(region)
}

/// Decodes just the chunk meta from an image. Needs only the header
/// and meta section to be present.
pub fn open_meta(bytes: &[u8]) -> (r: Result<ChunkMeta, Error>)
    ensures
        r is Ok <==> spec_chunk_source_ok(bytes@),
        match r {
            Ok(m) => spec_meta_matches(bytes@, m),
            Err(e) => !spec_chunk_source_ok(bytes@) && spec_open_failure(bytes@, e),
        },
{
    let header = match read_header(bytes) {
        Ok(h) => h,
        Err(e) => {
            return Err(e);
        },
    };
    read_meta(bytes, &header)
}

/// Opens a chunk image for positional reads, retaining the image and
/// its decoded meta.
pub fn open_chunk(bytes: Vec<u8>) -> (r: Result<ChunkFile, Error>)
    ensures
        r is Ok <==> spec_chunk_source_ok(bytes@),
        match r {
            Ok(c) => c.bytes@ == bytes@ && c.wf(),
            Err(e) => !spec_chunk_source_ok(bytes@) && spec_open_failure(bytes@, e),
        },
{
    let meta = match open_meta(bytes.as_slice()) {
        Ok(m) => m,
        Err(e) => {
            return Err(e);
        },
    };
    Ok(ChunkFile { meta, bytes })
}

/// The first column entry carrying `col_id`.
pub open spec fn spec_find_col(cols: Seq<ColumnMeta>, col_id: u16) -> Option<ColumnMeta>
    decreases cols.len(),
{
    if cols.len() == 0 {
        None
    } else if cols[0].col_id == col_id {
        Some(cols[0])
    } else {
        spec_find_col(cols.subrange(1, cols.len() as int), col_id)
    }
}

/// The last column entry carrying `col_id`; it is the one whose data a
/// full batch read returns, since later entries overwrite earlier ones.
pub open spec fn spec_find_col_last(cols: Seq<ColumnMeta>, col_id: u16) -> Option<ColumnMeta>
    decreases cols.len(),
{
    if cols.len() == 0 {
        None
    } else if cols.last().col_id == col_id {
        Some(cols.last())
    } else {
        spec_find_col_last(cols.drop_last(), col_id)
    }
}

/// The requested row range lies inside the column.
pub open spec fn spec_range_ok(c: ColumnMeta, start: int, end: int, w: int, rc: int) -> bool {
    &&& 0 <= start <= end <= rc
    &&& end * w <= c.len
    &&& end * w <= usize::MAX
}

/// The byte position of row `start` fits in a file offset.
pub open spec fn spec_range_pos_ok(c: ColumnMeta, start: int, w: int) -> bool {
    c.offset + start * w <= u64::MAX
}

/// The requested bytes lie inside the image.
pub open spec fn spec_range_in_file(c: ColumnMeta, end: int, w: int, flen: int) -> bool {
    c.offset + end * w <= flen
}

/// Copies `len` bytes at absolute offset `off` out of the image;
/// reading past the end of the image is an I/O failure.
fn read_bytes_at(b: &[u8], off: u64, len: usize) -> (r: Result<Vec<u8>, Error>)
    ensures
        r is Ok <==> off as int + len as int <= b@.len(),
        match r {
            Ok(v) => v@ == b@.subrange(off as int, off as int + len as int),
            Err(e) => e is Io,
        },
{
    let n: usize = b.len();
    if off > n as u64 || len as u64 > n as u64 - off {
        return Err(Error::Io("unexpected end of file in column data".to_string()));
    }
    let start = off as usize;
    Ok(slice_to_vec(slice_subrange(b, start, start + len)))
}

/// Decodes a packed little-endian i64 array.
fn decode_i64s(buf: &Vec<u8>, count: usize) -> (r: Vec<i64>)
    requires
        buf@.len() == 8 * count,
    ensures
        r@.len() == count,
        forall|i: int| 0 <= i < count ==> r@[i] == spec_le_i64_at(buf@, 8 * i),
{
    let total: usize = buf.len();
    let mut out: Vec<i64> = Vec::new();
    let mut i: usize = 0;
    while i < count
        invariant
            i <= count,
            total == buf@.len(),
            buf@.len() == 8 * count,
            out@.len() == i,
            forall|j: int| 0 <= j < i ==> out@[j] == spec_le_i64_at(buf@, 8 * j),
        decreases count - i,
    {
        out.push(le_i64_at(buf.as_slice(), 8 * i));
        i = i + 1;
    }
    out
}

/// Decodes a packed little-endian u32 array.
fn decode_u32s(buf: &Vec<u8>, count: usize) -> (r: Vec<u32>)
    requires
        buf@.len() == 4 * count,
    ensures
        r@.len() == count,
        forall|i: int| 0 <= i < count ==> r@[i] == spec_le_u32_at(buf@, 4 * i),
{
    let total: usize = buf.len();
    let mut out: Vec<u32> = Vec::new();
    let mut i: usize = 0;
    while i < count
        invariant
            i <= count,
            total == buf@.len(),
            buf@.len() == 4 * count,
            out@.len() == i,
            forall|j: int| 0 <= j < i ==> out@[j] == spec_le_u32_at(buf@, 4 * j),
        decreases count - i,
    {
        out.push(le_u32_at(buf.as_slice(), 4 * i));
        i = i + 1;
    }
    out
}

/// Decodes a packed little-endian u64 array.
fn decode_u64s(buf: &Vec<u8>, count: usize) -> (r: Vec<u64>)
    requires
        buf@.len() == 8 * count,
    ensures
        r@.len() == count,
        forall|i: int| 0 <= i < count ==> r@[i] == spec_le_u64_at(buf@, 8 * i),
{
    let total: usize = buf.len();
    let mut out: Vec<u64> = Vec::new();
    let mut i: usize = 0;
    while i < count
        invariant
            i <= count,
            total == buf@.len(),
            buf@.len() == 8 * count,
            out@.len() == i,
            forall|j: int| 0 <= j < i ==> out@[j] == spec_le_u64_at(buf@, 8 * j),
        decreases count - i,
    {
        out.push(le_u64_at(buf.as_slice(), 8 * i));
        i = i + 1;
    }
    out
}

impl ChunkFile {
    /// Looks up a column by id; a missing column is `Corrupt`.
    fn find_col(&self, col_id: u16) -> (r: Result<ColumnMeta, Error>)
        ensures
            match spec_find_col(self.meta.cols@, col_id) {
                Some(c) => r == Ok::<ColumnMeta, Error>(c),
                None => r matches Err(e) && e is Corrupt,
            },
    {
        let cols = &self.meta.cols;
        let n = cols.len();
        proof {
            assert(cols@.subrange(0, n as int) =~= cols@);
        }
        let mut i: usize = 0;
        while i < n
            invariant
                i <= n,
                n == cols@.len(),
                cols@ == self.meta.cols@,
                spec_find_col(cols@, col_id) == spec_find_col(
                    cols@.subrange(i as int, n as int),
                    col_id,
                ),
            decreases n - i,
        {
            let c = cols[i];
            proof {
                let rest = cols@.subrange(i as int, n as int);
                assert(rest[0] == c);
                assert(rest.subrange(1, rest.len() as int) =~= cols@.subrange(
                    i + 1,
                    n as int,
                ));
            }
            if c.col_id == col_id {
                proof {
                    let rest = cols@.subrange(i as int, n as int);
                    assert(rest.len() > 0);
                    assert(rest[0].col_id == col_id);
                    assert(spec_find_col(rest, col_id) == Some(c));
                }
                return Ok(c);
            }
            i = i + 1;
        }
        Err(Error::Corrupt("missing column".to_string()))
    }

    /// Reads rows `[start, end)` of an i64 column.
    ///
    /// Succeeds exactly when the column exists with encoding 0, the
    /// range is within the row count and the column's byte length, and
    /// the bytes lie inside the image; element `i` of the result is the
    /// value stored at the column's position `start + i`.
    pub fn read_range_i64(&self, col_id: u16, start: usize, end: usize) -> (r: Result<
        Vec<i64>,
        Error,
    >)
        ensures
            read_range_contract_i64(self, col_id, start as int, end as int, r),
    {
        let col = match self.find_col(col_id) {
            Ok(c) => c,
            Err(e) => {
                return Err(e);
            },
        };
        if col.encoding != 0 {
            return Err(Error::Unsupported("unsupported encoding".to_string()));
        }
        let buf = match self.read_range_bytes(&col, start, end, 8) {
            Ok(b) => b,
            Err(e) => {
                return Err(e);
            },
        };
        let count = end - start;
        let out = decode_i64s(&buf, count);
        proof {
            let b = self.bytes@;
            let base = col.offset as int + 8 * start;
            assert forall|i: int| 0 <= i < count implies out@[i] == spec_le_i64_at(
                b,
                col.offset + 8 * (start + i),
            ) by {
                crate::codec::lemma_subrange_at(b, buf@, base, 8 * i, 8 * i + 8);
                assert(col.offset + 8 * (start + i) == base + 8 * i);
            }
        }
        Ok(out)
    }

    /// Reads rows `[start, end)` of a u32 column.
    pub fn read_range_u32(&self, col_id: u16, start: usize, end: usize) -> (r: Result<
        Vec<u32>,
        Error,
    >)
        ensures
            read_range_contract_u32(self, col_id, start as int, end as int, r),
    {
        let col = match self.find_col(col_id) {
            Ok(c) => c,
            Err(e) => {
                return Err(e);
            },
        };
        if col.encoding != 0 {
            return Err(Error::Unsupported("unsupported encoding".to_string()));
        }
        let buf = match self.read_range_bytes(&col, start, end, 4) {
            Ok(b) => b,
            Err(e) => {
                return Err(e);
            },
        };
        let count = end - start;
        let out = decode_u32s(&buf, count);
        proof {
            let b = self.bytes@;
            let base = col.offset as int + 4 * start;
            assert forall|i: int| 0 <= i < count implies out@[i] == spec_le_u32_at(
                b,
                col.offset + 4 * (start + i),
            ) by {
                crate::codec::lemma_subrange_at(b, buf@, base, 4 * i, 4 * i + 4);
                assert(col.offset + 4 * (start + i) == base + 4 * i);
            }
        }
        Ok(out)
    }

    /// Reads rows `[start, end)` of a double column, as bit patterns.
    pub fn read_range_f64(&self, col_id: u16, start: usize, end: usize) -> (r: Result<
        Vec<u64>,
        Error,
    >)
        ensures
            read_range_contract_f64(self, col_id, start as int, end as int, r),
    {
        let col = match self.find_col(col_id) {
            Ok(c) => c,
            Err(e) => {
                return Err(e);
            },
        };
        if col.encoding != 0 {
            return Err(Error::Unsupported("unsupported encoding".to_string()));
        }
        let buf = match self.read_range_bytes(&col, start, end, 8) {
            Ok(b) => b,
            Err(e) => {
                return Err(e);
            },
        };
        let count = end - start;
        let out = decode_u64s(&buf, count);
        proof {
            let b = self.bytes@;
            let base = col.offset as int + 8 * start;
            assert forall|i: int| 0 <= i < count implies out@[i] == spec_le_u64_at(
                b,
                col.offset + 8 * (start + i),
            ) by {
                crate::codec::lemma_subrange_at(b, buf@, base, 8 * i, 8 * i + 8);
                assert(col.offset + 8 * (start + i) == base + 8 * i);
            }
        }
        Ok(out)
    }

    /// The timestamp at row `idx`, read through the ts column entry.
    pub fn read_ts_at(&self, idx: usize) -> (r: Result<i64, Error>)
        ensures
            match r {
                Ok(t) => {
                    &&& idx < self.meta.row_count
                    &&& match spec_find_col(self.meta.cols@, 0) {
                        Some(c) => {
                            &&& c.encoding == 0
                            &&& spec_range_pos_ok(c, idx as int, 8)
                            &&& c.offset + 8 * idx + 8 <= self.bytes@.len()
                            &&& t == spec_le_i64_at(self.bytes@, c.offset + 8 * idx)
                        },
                        None => false,
                    }
                },
                Err(e) => {
                    if idx >= self.meta.row_count {
                        e is Corrupt
                    } else {
                        match spec_find_col(self.meta.cols@, 0) {
                            None => e is Corrupt,
                            Some(c) => {
                                ||| (c.encoding != 0 && e is Unsupported)
                                ||| (c.encoding == 0 && !spec_range_pos_ok(c, idx as int, 8)
                                    && e is Corrupt)
                                ||| (c.encoding == 0 && spec_range_pos_ok(c, idx as int, 8)
                                    && c.offset + 8 * idx + 8 > self.bytes@.len() && e is Io)
                            },
                        }
                    }
                },
            },
    {
        if idx >= self.meta.row_count as usize {
            return Err(Error::Corrupt("ts index out of bounds".to_string()));
        }
        let ts_col = match self.find_col(0) {
            Ok(c) => c,
            Err(_) => {
                return Err(Error::Corrupt("missing ts column".to_string()));
            },
        };
        if ts_col.encoding != 0 {
            return Err(Error::Unsupported("unsupported encoding".to_string()));
        }
        let pos = match ts_col.offset.checked_add((idx as u64) * 8) {
            Some(p) => p,
            None => {
                return Err(Error::Corrupt("ts offset overflow".to_string()));
            },
        };
        let n: usize = self.bytes.len();
        if pos > n as u64 || (n as u64) - pos < 8 {
            return Err(Error::Io("unexpected end of file in ts column".to_string()));
        }
        Ok(le_i64_at(self.bytes.as_slice(), pos as usize))
    }

    /// Bounds-checks a row range against a column and copies its bytes
    /// out of the image.
    fn read_range_bytes(&self, col: &ColumnMeta, start: usize, end: usize, width: usize) -> (r:
        Result<Vec<u8>, Error>)
        requires
            width == 4 || width == 8,
        ensures
            r is Ok <==> {
                &&& spec_range_ok(*col, start as int, end as int, width as int,
                    self.meta.row_count as int)
                &&& spec_range_pos_ok(*col, start as int, width as int)
                &&& spec_range_in_file(*col, end as int, width as int, self.bytes@.len() as int)
            },
            match r {
                Ok(v) => v@ == self.bytes@.subrange(
                    col.offset + start * width,
                    col.offset + end * width,
                ),
                Err(e) => {
                    ||| (!spec_range_ok(*col, start as int, end as int, width as int,
                        self.meta.row_count as int) && e is Corrupt)
                    ||| (spec_range_ok(*col, start as int, end as int, width as int,
                        self.meta.row_count as int) && !spec_range_pos_ok(*col, start as int,
                        width as int) && e is Corrupt)
                    ||| (spec_range_ok(*col, start as int, end as int, width as int,
                        self.meta.row_count as int) && spec_range_pos_ok(*col, start as int,
                        width as int) && !spec_range_in_file(*col, end as int, width as int,
                        self.bytes@.len() as int) && e is Io)
                },
            },
    {
        if start > end {
            return Err(Error::Corrupt("range start > end".to_string()));
        }
        let row_count = self.meta.row_count as usize;
        if end > row_count {
            return Err(Error::Corrupt("range end out of bounds".to_string()));
        }
        let end_bytes = match end.checked_mul(width) {
            Some(v) => v,
            None => {
                return Err(Error::Corrupt("range byte overflow".to_string()));
            },
        };
        if end_bytes as u64 > col.len {
            return Err(Error::Corrupt("range exceeds column length".to_string()));
        }
        proof {
            assert(start * width <= end * width) by (nonlinear_arith)
                requires
                    start <= end,
                    0 <= width,
            ;
        }
        let start_bytes = start * width;
        let byte_len = end_bytes - start_bytes;
        let pos = match col.offset.checked_add(start_bytes as u64) {
            Some(p) => p,
            None => {
                return Err(Error::Corrupt("range offset overflow".to_string()));
            },
        };
        read_bytes_at(self.bytes.as_slice(), pos, byte_len)
    }
}

/// The first byte offset at which column data may live: everything
/// below it belongs to the header and the meta section.
pub open spec fn spec_min_data_offset(cols: Seq<ColumnMeta>) -> int {
    16 + 24 + 20 * (cols.len() as int)
}

/// The element width of a standard column: 8 bytes for ts and value,
/// 4 for series_id.
pub open spec fn spec_col_width(col_id: u16) -> int {
    if col_id == 1 {
        4
    } else {
        8
    }
}

/// One column entry passes the full-batch read's checks: its data sits
/// at or after the data section, is plainly encoded, and — for the
/// three standard ids — lies inside the image with exactly `rc` rows.
pub open spec fn spec_batch_col_ok(b: Seq<u8>, c: ColumnMeta, rc: int, min_off: int) -> bool {
    &&& c.offset >= min_off
    &&& c.encoding == 0
    &&& (c.col_id == 0 || c.col_id == 1 || c.col_id == 2) ==> {
        &&& c.len <= usize::MAX
        &&& c.offset + c.len <= b.len()
        &&& c.len as int % spec_col_width(c.col_id) == 0
        &&& c.len as int / spec_col_width(c.col_id) == rc
    }
}

/// A full batch read succeeds: every column entry passes its checks and
/// all three standard columns are present.
pub open spec fn spec_read_batch_ok(f: ChunkFile) -> bool {
    let cols = f.meta.cols@;
    let rc = f.meta.row_count as int;
    let min_off = spec_min_data_offset(cols);
    &&& 40 + 20 * cols.len() <= usize::MAX
    &&& forall|j: int|
        0 <= j < cols.len() ==> spec_batch_col_ok(f.bytes@, cols[j], rc, min_off)
    &&& spec_find_col_last(cols, 0) is Some
    &&& spec_find_col_last(cols, 1) is Some
    &&& spec_find_col_last(cols, 2) is Some
}

/// Reads a whole i64 column of `rc` rows.
fn read_i64_col(b: &[u8], col: &ColumnMeta, rc: usize) -> (r: Result<Vec<i64>, Error>)
    ensures
        r is Ok <==> {
            &&& col.len <= usize::MAX
            &&& col.offset + col.len <= b@.len()
            &&& col.len as int % 8 == 0
            &&& col.len as int / 8 == rc
        },
        match r {
            Ok(v) => {
                &&& v@.len() == rc
                &&& forall|i: int|
                    0 <= i < rc ==> v@[i] == spec_le_i64_at(b@, col.offset + 8 * i)
            },
            Err(e) => {
                ||| (col.len > usize::MAX && e is Corrupt)
                ||| (col.len <= usize::MAX && col.offset + col.len > b@.len() && e is Io)
                ||| (col.len <= usize::MAX && col.offset + col.len <= b@.len() && (
                col.len as int % 8 != 0 || col.len as int / 8 != rc) && e is Corrupt)
            },
        },
{
    if col.len > usize::MAX as u64 {
        return Err(Error::Corrupt("column len overflow".to_string()));
    }
    let len = col.len as usize;
    let buf = match read_bytes_at(b, col.offset, len) {
        Ok(v) => v,
        Err(e) => {
            return Err(e);
        },
    };
    if len % 8 != 0 {
        return Err(Error::Corrupt("i64 column length mismatch".to_string()));
    }
    let count = len / 8;
    if count != rc {
        return Err(Error::Corrupt("row_count mismatch".to_string()));
    }
    let out = decode_i64s(&buf, count);
    proof {
        assert forall|i: int| 0 <= i < rc implies out@[i] == spec_le_i64_at(
            b@,
            col.offset + 8 * i,
        ) by {
            crate::codec::lemma_subrange_at(b@, buf@, col.offset as int, 8 * i, 8 * i + 8);
        }
    }
    Ok(out)
}

/// Reads a whole u32 column of `rc` rows.
fn read_u32_col(b: &[u8], col: &ColumnMeta, rc: usize) -> (r: Result<Vec<u32>, Error>)
    ensures
        r is Ok <==> {
            &&& col.len <= usize::MAX
            &&& col.offset + col.len <= b@.len()
            &&& col.len as int % 4 == 0
            &&& col.len as int / 4 == rc
        },
        match r {
            Ok(v) => {
                &&& v@.len() == rc
                &&& forall|i: int|
                    0 <= i < rc ==> v@[i] == spec_le_u32_at(b@, col.offset + 4 * i)
            },
            Err(e) => {
                ||| (col.len > usize::MAX && e is Corrupt)
                ||| (col.len <= usize::MAX && col.offset + col.len > b@.len() && e is Io)
                ||| (col.len <= usize::MAX && col.offset + col.len <= b@.len() && (
                col.len as int % 4 != 0 || col.len as int / 4 != rc) && e is Corrupt)
            },
        },
{
    if col.len > usize::MAX as u64 {
        return Err(Error::Corrupt("column len overflow".to_string()));
    }
    let len = col.len as usize;
    let buf = match read_bytes_at(b, col.offset, len) {
        Ok(v) => v,
        Err(e) => {
            return Err(e);
        },
    };
    if len % 4 != 0 {
        return Err(Error::Corrupt("u32 column length mismatch".to_string()));
    }
    let count = len / 4;
    if count != rc {
        return Err(Error::Corrupt("row_count mismatch".to_string()));
    }
    let out = decode_u32s(&buf, count);
    proof {
        assert forall|i: int| 0 <= i < rc implies out@[i] == spec_le_u32_at(
            b@,
            col.offset + 4 * i,
        ) by {
            crate::codec::lemma_subrange_at(b@, buf@, col.offset as int, 4 * i, 4 * i + 4);
        }
    }
    Ok(out)
}

/// Reads a whole double column of `rc` rows, as bit patterns.
fn read_f64_col(b: &[u8], col: &ColumnMeta, rc: usize) -> (r: Result<Vec<u64>, Error>)
    ensures
        r is Ok <==> {
            &&& col.len <= usize::MAX
            &&& col.offset + col.len <= b@.len()
            &&& col.len as int % 8 == 0
            &&& col.len as int / 8 == rc
        },
        match r {
            Ok(v) => {
                &&& v@.len() == rc
                &&& forall|i: int|
                    0 <= i < rc ==> v@[i] == spec_le_u64_at(b@, col.offset + 8 * i)
            },
            Err(e) => {
                ||| (col.len > usize::MAX && e is Corrupt)
                ||| (col.len <= usize::MAX && col.offset + col.len > b@.len() && e is Io)
                ||| (col.len <= usize::MAX && col.offset + col.len <= b@.len() && (
                col.len as int % 8 != 0 || col.len as int / 8 != rc) && e is Corrupt)
            },
        },
{
    if col.len > usize::MAX as u64 {
        return Err(Error::Corrupt("column len overflow".to_string()));
    }
    let len = col.len as usize;
    let buf = match read_bytes_at(b, col.offset, len) {
        Ok(v) => v,
        Err(e) => {
            return Err(e);
        },
    };
    if len % 8 != 0 {
        return Err(Error::Corrupt("f64 column length mismatch".to_string()));
    }
    let count = len / 8;
    if count != rc {
        return Err(Error::Corrupt("row_count mismatch".to_string()));
    }
    let out = decode_u64s(&buf, count);
    proof {
        assert forall|i: int| 0 <= i < rc implies out@[i] == spec_le_u64_at(
            b@,
            col.offset + 8 * i,
        ) by {
            crate::codec::lemma_subrange_at(b@, buf@, col.offset as int, 8 * i, 8 * i + 8);
        }
    }
    Ok(out)
}

/// The meta section byte length implied by a decoded meta.
pub fn meta_total_len(meta: &ChunkMeta) -> (r: Result<usize, Error>)
    ensures
        r is Ok <==> 24 + 20 * meta.cols@.len() <= usize::MAX,
        match r {
            Ok(v) => v == 24 + 20 * meta.cols@.len(),
            Err(e) => e is Corrupt,
        },
{
    let n = meta.cols.len();
    let cols_len = match n.checked_mul(20) {
        Some(v) => v,
        None => {
            return Err(Error::Corrupt("meta length overflow".to_string()));
        },
    };
    match cols_len.checked_add(24) {
        Some(v) => Ok(v),
        None => Err(Error::Corrupt("meta length overflow".to_string())),
    }
}

/// What each error kind of a full-batch read points at: `Unsupported`
/// only at a foreign encoding; `Io` only at a standard column whose
/// data runs past the end of the image; `Corrupt` only at a layout
/// violation — an oversized meta, a column inside the header or meta
/// region, a standard column of the wrong byte length or row count, or
/// a missing standard column.
pub open spec fn spec_read_batch_failure(f: ChunkFile, e: Error) -> bool {
    let cols = f.meta.cols@;
    let rc = f.meta.row_count as int;
    let min_off = spec_min_data_offset(cols);
    &&& (e is Unsupported ==> exists|j: int|
        0 <= j < cols.len() && (#[trigger] cols[j]).encoding != 0)
    &&& (e is Io ==> exists|j: int|
        {
            let c = #[trigger] cols[j];
            &&& 0 <= j < cols.len()
            &&& (c.col_id == 0 || c.col_id == 1 || c.col_id == 2)
            &&& c.len <= usize::MAX
            &&& c.offset + c.len > f.bytes@.len()
        })
    &&& (e is Corrupt ==> {
        ||| 40 + 20 * (cols.len() as int) > usize::MAX
        ||| exists|j: int| 0 <= j < cols.len() && (#[trigger] cols[j]).offset < min_off
        ||| exists|j: int|
            {
                let c = #[trigger] cols[j];
                &&& 0 <= j < cols.len()
                &&& (c.col_id == 0 || c.col_id == 1 || c.col_id == 2)
                &&& {
                    ||| c.len > usize::MAX
                    ||| c.len as int % spec_col_width(c.col_id) != 0
                    ||| c.len as int / spec_col_width(c.col_id) != rc
                }
            }
        ||| spec_find_col_last(cols, 0) is None
        ||| spec_find_col_last(cols, 1) is None
        ||| spec_find_col_last(cols, 2) is None
    })
}

/// What a successful full-batch read returns: three columns of the
/// meta's row count, each read element by element from the last column
/// entry carrying its id.
pub open spec fn spec_read_batch_result(f: ChunkFile, rb: RecordBatch) -> bool {
    let cols = f.meta.cols@;
    let rc = f.meta.row_count as int;
    &&& rb.ts@.len() == rc
    &&& rb.series_id@.len() == rc
    &&& rb.value@.len() == rc
    &&& match spec_find_col_last(cols, 0) {
        Some(c) => forall|i: int|
            0 <= i < rc ==> rb.ts@[i] == spec_le_i64_at(f.bytes@, c.offset + 8 * i),
        None => false,
    }
    &&& match spec_find_col_last(cols, 1) {
        Some(c) => forall|i: int|
            0 <= i < rc ==> rb.series_id@[i] == spec_le_u32_at(f.bytes@, c.offset + 4 * i),
        None => false,
    }
    &&& match spec_find_col_last(cols, 2) {
        Some(c) => forall|i: int|
            0 <= i < rc ==> rb.value@[i] == spec_le_u64_at(f.bytes@, c.offset + 8 * i),
        None => false,
    }
}

/// Reads all three standard columns in full and assembles a well-formed
/// batch. Refuses any column whose data would overlap the header or
/// meta region; when one id occurs twice, the last entry wins.
pub fn read_batch(chunk: &ChunkFile) -> (r: Result<RecordBatch, Error>)
    ensures
        r is Ok <==> spec_read_batch_ok(*chunk),
        match r {
            Ok(rb) => spec_read_batch_result(*chunk, rb),
            Err(e) => !spec_read_batch_ok(*chunk) && spec_read_batch_failure(*chunk, e),
        },
{
    let rc = chunk.meta.row_count as usize;
    let total = match meta_total_len(&chunk.meta) {
        Ok(v) => v,
        Err(e) => {
            return Err(e);
        },
    };
    let min_data_offset = match total.checked_add(16) {
        Some(v) => v,
        None => {
            return Err(Error::Corrupt("meta length overflow".to_string()));
        },
    };
    let ncols = chunk.meta.cols.len();
    let mut ts: Option<Vec<i64>> = None;
    let mut series_id: Option<Vec<u32>> = None;
    let mut value: Option<Vec<u64>> = None;

    let ghost cols = chunk.meta.cols@;
    let ghost b = chunk.bytes@;
    let ghost min_off = spec_min_data_offset(cols);
    let mut j: usize = 0;
    while j < ncols
        invariant
            j <= ncols,
            ncols == cols.len(),
            cols == chunk.meta.cols@,
            b == chunk.bytes@,
            rc == chunk.meta.row_count as int,
            min_off == spec_min_data_offset(cols),
            min_data_offset == 40 + 20 * cols.len(),
            forall|k: int| 0 <= k < j ==> spec_batch_col_ok(b, cols[k], rc as int, min_off),
            match spec_find_col_last(cols.subrange(0, j as int), 0) {
                Some(c) => match ts {
                    Some(v) => v@.len() == rc && forall|i: int|
                        0 <= i < rc ==> v@[i] == spec_le_i64_at(b, c.offset + 8 * i),
                    None => false,
                },
                None => ts is None,
            },
            match spec_find_col_last(cols.subrange(0, j as int), 1) {
                Some(c) => match series_id {
                    Some(v) => v@.len() == rc && forall|i: int|
                        0 <= i < rc ==> v@[i] == spec_le_u32_at(b, c.offset + 4 * i),
                    None => false,
                },
                None => series_id is None,
            },
            match spec_find_col_last(cols.subrange(0, j as int), 2) {
                Some(c) => match value {
                    Some(v) => v@.len() == rc && forall|i: int|
                        0 <= i < rc ==> v@[i] == spec_le_u64_at(b, c.offset + 8 * i),
                    None => false,
                },
                None => value is None,
            },
        decreases ncols - j,
    {
        let col = chunk.meta.cols[j];
        proof {
            let s2 = cols.subrange(0, j + 1);
            assert(s2.drop_last() =~= cols.subrange(0, j as int));
            assert(s2.last() == col);
        }
        if col.offset < min_data_offset as u64 {
            proof {
                assert(!spec_batch_col_ok(b, cols[j as int], rc as int, min_off));
            }
            return Err(Error::Corrupt("column offset before data section".to_string()));
        }
        if col.encoding != 0 {
            proof {
                assert(!spec_batch_col_ok(b, cols[j as int], rc as int, min_off));
            }
            return Err(Error::Unsupported("unsupported encoding".to_string()));
        }
        if col.col_id == 0 {
            let v = match read_i64_col(chunk.bytes.as_slice(), &col, rc) {
                Ok(v) => v,
                Err(e) => {
                    proof {
                        assert(!spec_batch_col_ok(b, cols[j as int], rc as int, min_off));
                    }
                    return Err(e);
                },
            };
            ts = Some(v);
        } else if col.col_id == 1 {
            let v = match read_u32_col(chunk.bytes.as_slice(), &col, rc) {
                Ok(v) => v,
                Err(e) => {
                    proof {
                        assert(!spec_batch_col_ok(b, cols[j as int], rc as int, min_off));
                    }
                    return Err(e);
                },
            };
            series_id = Some(v);
        } else if col.col_id == 2 {
            let v = match read_f64_col(chunk.bytes.as_slice(), &col, rc) {
                Ok(v) => v,
                Err(e) => {
                    proof {
                        assert(!spec_batch_col_ok(b, cols[j as int], rc as int, min_off));
                    }
                    return Err(e);
                },
            };
            value = Some(v);
        }
        j = j + 1;
    }
    proof {
        assert(cols.subrange(0, ncols as int) =~= cols);
    }

    let ts = match ts {
        Some(v) => v,
        None => {
            return Err(Error::Corrupt("missing ts column".to_string()));
        },
    };
    let series_id = match series_id {
        Some(v) => v,
        None => {
            return Err(Error::Corrupt("missing series_id column".to_string()));
        },
    };
    let value = match value {
        Some(v) => v,
        None => {
            return Err(Error::Corrupt("missing value column".to_string()));
        },
    };
    Ok(RecordBatch { ts, series_id, value })
}

/// The exact contract of `read_range_i64`, shared wording for all three
/// element types: success exactly on a present, plainly encoded column
/// and an in-bounds range, and each returned element read back from its
/// stored position.
pub open spec fn read_range_contract_i64(
    f: &ChunkFile,
    col_id: u16,
    start: int,
    end: int,
    r: Result<Vec<i64>, Error>,
) -> bool {
    match spec_find_col(f.meta.cols@, col_id) {
        None => r matches Err(e) && e is Corrupt,
        Some(c) => {
            &&& (r is Ok <==> {
                &&& c.encoding == 0
                &&& spec_range_ok(c, start, end, 8, f.meta.row_count as int)
                &&& spec_range_pos_ok(c, start, 8)
                &&& spec_range_in_file(c, end, 8, f.bytes@.len() as int)
            })
            &&& match r {
                Ok(v) => {
                    &&& v@.len() == end - start
                    &&& forall|i: int|
                        0 <= i < end - start ==> v@[i] == spec_le_i64_at(
                            f.bytes@,
                            c.offset + 8 * (start + i),
                        )
                },
                Err(e) => {
                    ||| (c.encoding != 0 && e is Unsupported)
                    ||| (c.encoding == 0 && !spec_range_ok(c, start, end, 8,
                        f.meta.row_count as int) && e is Corrupt)
                    ||| (c.encoding == 0 && spec_range_ok(c, start, end, 8,
                        f.meta.row_count as int) && !spec_range_pos_ok(c, start, 8)
                        && e is Corrupt)
                    ||| (c.encoding == 0 && spec_range_ok(c, start, end, 8,
                        f.meta.row_count as int) && spec_range_pos_ok(c, start, 8)
                        && !spec_range_in_file(c, end, 8, f.bytes@.len() as int) && e is Io)
                },
            }
        },
    }
}

/// The exact contract of `read_range_u32`.
pub open spec fn read_range_contract_u32(
    f: &ChunkFile,
    col_id: u16,
    start: int,
    end: int,
    r: Result<Vec<u32>, Error>,
) -> bool {
    match spec_find_col(f.meta.cols@, col_id) {
        None => r matches Err(e) && e is Corrupt,
        Some(c) => {
            &&& (r is Ok <==> {
                &&& c.encoding == 0
                &&& spec_range_ok(c, start, end, 4, f.meta.row_count as int)
                &&& spec_range_pos_ok(c, start, 4)
                &&& spec_range_in_file(c, end, 4, f.bytes@.len() as int)
            })
            &&& match r {
                Ok(v) => {
                    &&& v@.len() == end - start
                    &&& forall|i: int|
                        0 <= i < end - start ==> v@[i] == spec_le_u32_at(
                            f.bytes@,
                            c.offset + 4 * (start + i),
                        )
                },
                Err(e) => {
                    ||| (c.encoding != 0 && e is Unsupported)
                    ||| (c.encoding == 0 && !spec_range_ok(c, start, end, 4,
                        f.meta.row_count as int) && e is Corrupt)
                    ||| (c.encoding == 0 && spec_range_ok(c, start, end, 4,
                        f.meta.row_count as int) && !spec_range_pos_ok(c, start, 4)
                        && e is Corrupt)
                    ||| (c.encoding == 0 && spec_range_ok(c, start, end, 4,
                        f.meta.row_count as int) && spec_range_pos_ok(c, start, 4)
                        && !spec_range_in_file(c, end, 4, f.bytes@.len() as int) && e is Io)
                },
            }
        },
    }
}

/// The exact contract of `read_range_f64`; elements are bit patterns.
pub open spec fn read_range_contract_f64(
    f: &ChunkFile,
    col_id: u16,
    start: int,
    end: int,
    r: Result<Vec<u64>, Error>,
) -> bool {
    match spec_find_col(f.meta.cols@, col_id) {
        None => r matches Err(e) && e is Corrupt,
        Some(c) => {
            &&& (r is Ok <==> {
                &&& c.encoding == 0
                &&& spec_range_ok(c, start, end, 8, f.meta.row_count as int)
                &&& spec_range_pos_ok(c, start, 8)
                &&& spec_range_in_file(c, end, 8, f.bytes@.len() as int)
            })
            &&& match r {
                Ok(v) => {
                    &&& v@.len() == end - start
                    &&& forall|i: int|
                        0 <= i < end - start ==> v@[i] == spec_le_u64_at(
                            f.bytes@,
                            c.offset + 8 * (start + i),
                        )
                },
                Err(e) => {
                    ||| (c.encoding != 0 && e is Unsupported)
                    ||| (c.encoding == 0 && !spec_range_ok(c, start, end, 8,
                        f.meta.row_count as int) && e is Corrupt)
                    ||| (c.encoding == 0 && spec_range_ok(c, start, end, 8,
                        f.meta.row_count as int) && !spec_range_pos_ok(c, start, 8)
                        && e is Corrupt)
                    ||| (c.encoding == 0 && spec_range_ok(c, start, end, 8,
                        f.meta.row_count as int) && spec_range_pos_ok(c, start, 8)
                        && !spec_range_in_file(c, end, 8, f.bytes@.len() as int) && e is Io)
                },
            }
        },
    }
}

} // verus!
