use tsdb_core::batch::RecordBatch;
use tsdb_core::meta::{decode_meta, encode_meta, ChunkMeta, ColumnMeta};
use tsdb_core::error::Error;
use tsdb_core::format::HEADER_LEN;
use tsdb_core::reader::{open_chunk, open_meta, read_batch};
use tsdb_core::writer::{meta_len_for_cols, write_chunk};

fn make_batch(len: usize) -> RecordBatch {
    let mut ts = Vec::with_capacity(len);
    let mut series_id = Vec::with_capacity(len);
    let mut value = Vec::with_capacity(len);

    for i in 0..len {
        ts.push(i as i64);
        series_id.push((i as u32) % 1000);
        value.push((i as f64).sin().to_bits());
    }

    RecordBatch {
        ts,
        series_id,
        value,
    }
}

struct Lcg {
    state: u64,
}

impl Lcg {
    fn new(seed: u64) -> Self {
        Self { state: seed }
    }

    fn next_u64(&mut self) -> u64 {
        self.state = self.state.wrapping_mul(6364136223846793005).wrapping_add(1);
        self.state
    }

    fn next_u32(&mut self) -> u32 {
        self.next_u64() as u32
    }

    fn next_i64(&mut self) -> i64 {
        self.next_u64() as i64
    }

    fn next_f64(&mut self) -> f64 {
        let bits = self.next_u64() >> 11;
        let unit = bits as f64 / ((1u64 << 53) as f64);
        unit * 10_000.0 - 5_000.0
    }
}

#[test]
fn roundtrip_chunk() {
    let mut rng = Lcg::new(0x9E37_79B9_7F4A_7C15);
    let len = 16_384usize;
    let mut ts = Vec::with_capacity(len);
    let mut series_id = Vec::with_capacity(len);
    let mut value = Vec::with_capacity(len);
    for _ in 0..len {
        ts.push(rng.next_i64());
        series_id.push(rng.next_u32());
        value.push(rng.next_f64().to_bits());
    }
    let batch = RecordBatch {
        ts,
        series_id,
        value,
    };

    let bytes = write_chunk(&batch).unwrap();
    let chunk = open_chunk(bytes).unwrap();
    let read = read_batch(&chunk).unwrap();

    assert_eq!(read.len(), batch.len());
    assert_eq!(read.ts, batch.ts);
    assert_eq!(read.series_id, batch.series_id);
    assert_eq!(read.value, batch.value);

    let ts_min = *batch.ts.iter().min().unwrap();
    let ts_max = *batch.ts.iter().max().unwrap();
    assert_eq!(chunk.meta.ts_min, ts_min);
    assert_eq!(chunk.meta.ts_max, ts_max);
}

#[test]
fn read_range_columns() {
    let batch = make_batch(16_384);
    let bytes = write_chunk(&batch).unwrap();
    let chunk = open_chunk(bytes).unwrap();

    let lo = 1000usize;
    let hi = 2000usize;
    let ts = chunk.read_range_i64(0, lo, hi).unwrap();
    let series_id = chunk.read_range_u32(1, lo, hi).unwrap();
    let value = chunk.read_range_f64(2, lo, hi).unwrap();

    assert_eq!(ts.len(), hi - lo);
    assert_eq!(series_id.len(), hi - lo);
    assert_eq!(value.len(), hi - lo);

    assert_eq!(ts.first().copied().unwrap(), 1000);
    assert_eq!(ts.last().copied().unwrap(), 1999);
    assert_eq!(series_id.first().copied().unwrap(), 0);
    assert_eq!(series_id.last().copied().unwrap(), 999);

    let first_val = f64::from_bits(value.first().copied().unwrap());
    let last_val = f64::from_bits(value.last().copied().unwrap());
    assert!((first_val - (1000f64).sin()).abs() < 1e-12);
    assert!((last_val - (1999f64).sin()).abs() < 1e-12);
}

#[test]
fn read_meta_without_data() {
    let batch = make_batch(16_384);
    let mut bytes = write_chunk(&batch).unwrap();

    let truncate_len = HEADER_LEN + meta_len_for_cols(3);
    bytes.truncate(truncate_len);

    let meta = open_meta(&bytes).unwrap();
    assert_eq!(meta.row_count, batch.len() as u32);

    let ts_min = *batch.ts.iter().min().unwrap();
    let ts_max = *batch.ts.iter().max().unwrap();
    assert_eq!(meta.ts_min, ts_min);
    assert_eq!(meta.ts_max, ts_max);
}

#[test]
fn roundtrip_canonical_batch() {
    let batch = make_batch(16_384);
    let bytes = write_chunk(&batch).unwrap();
    let chunk = open_chunk(bytes).unwrap();
    let read = read_batch(&chunk).unwrap();

    assert_eq!(read.ts, batch.ts);
    assert_eq!(read.series_id, batch.series_id);
    assert_eq!(read.value, batch.value);
    assert_eq!(chunk.meta.ts_min, 0);
    assert_eq!(chunk.meta.ts_max, 16_383);
    assert_eq!(chunk.meta.row_count, 16_384);
}

#[test]
fn roundtrip_empty_batch() {
    let batch = RecordBatch {
        ts: Vec::new(),
        series_id: Vec::new(),
        value: Vec::new(),
    };
    let bytes = write_chunk(&batch).unwrap();
    let chunk = open_chunk(bytes).unwrap();
    let read = read_batch(&chunk).unwrap();
    assert_eq!(read.len(), 0);
    assert_eq!(chunk.meta.ts_min, 0);
    assert_eq!(chunk.meta.ts_max, 0);
    assert_eq!(chunk.meta.row_count, 0);
}

#[test]
fn meta_corruption_is_detected() {
    let batch = make_batch(64);
    let bytes = write_chunk(&batch).unwrap();
    let meta_len = meta_len_for_cols(3);

    for pos in HEADER_LEN..HEADER_LEN + meta_len {
        for bit in 0..8u32 {
            let mut mutated = bytes.clone();
            mutated[pos] ^= 1u8 << bit;
            match open_meta(&mutated) {
                Err(Error::Corrupt(_)) => {}
                other => panic!(
                    "bit {} of byte {} flipped, but open_meta returned {:?}",
                    bit,
                    pos,
                    other.map(|m| m.row_count)
                ),
            }
            match open_chunk(mutated) {
                Err(Error::Corrupt(_)) => {}
                _ => panic!("open_chunk accepted a mutated meta byte at {}", pos),
            }
        }
    }
}

#[test]
fn range_read_errors() {
    let batch = make_batch(100);
    let bytes = write_chunk(&batch).unwrap();
    let chunk = open_chunk(bytes).unwrap();

    assert!(matches!(
        chunk.read_range_i64(7, 0, 10),
        Err(Error::Corrupt(_))
    ));
    assert!(matches!(
        chunk.read_range_i64(0, 10, 5),
        Err(Error::Corrupt(_))
    ));
    assert!(matches!(
        chunk.read_range_i64(0, 0, 101),
        Err(Error::Corrupt(_))
    ));
    assert!(chunk.read_range_i64(0, 0, 100).is_ok());
    assert!(chunk.read_range_u32(1, 99, 100).is_ok());
    assert_eq!(chunk.read_range_f64(2, 5, 5).unwrap().len(), 0);
}

#[test]
fn read_ts_at_matches_column() {
    let batch = make_batch(100);
    let bytes = write_chunk(&batch).unwrap();
    let chunk = open_chunk(bytes).unwrap();
    for idx in [0usize, 1, 50, 99] {
        assert_eq!(chunk.read_ts_at(idx).unwrap(), idx as i64);
    }
    assert!(matches!(chunk.read_ts_at(100), Err(Error::Corrupt(_))));
}

#[test]
fn write_chunk_rejects_ragged_batch() {
    let batch = RecordBatch {
        ts: vec![1, 2, 3],
        series_id: vec![1, 2],
        value: vec![0, 0, 0],
    };
    assert!(matches!(write_chunk(&batch), Err(Error::Corrupt(_))));
}

#[test]
fn header_validation() {
    let batch = make_batch(8);
    let bytes = write_chunk(&batch).unwrap();

    let mut bad_magic = bytes.clone();
    bad_magic[0] = b'X';
    assert!(matches!(open_meta(&bad_magic), Err(Error::Corrupt(_))));

    let mut bad_version = bytes.clone();
    bad_version[4] = 2;
    assert!(matches!(open_meta(&bad_version), Err(Error::Unsupported(_))));

    let mut bad_header_len = bytes.clone();
    bad_header_len[6] = 17;
    assert!(matches!(open_meta(&bad_header_len), Err(Error::Corrupt(_))));

    let short = bytes[..10].to_vec();
    assert!(matches!(open_meta(&short), Err(Error::Io(_))));

    let truncated_data = bytes[..HEADER_LEN + meta_len_for_cols(3) - 1].to_vec();
    assert!(matches!(open_meta(&truncated_data), Err(Error::Io(_))));
}

#[test]
fn unsupported_encoding_is_refused() {
    let batch = make_batch(8);
    let mut bytes = write_chunk(&batch).unwrap();

    // Set the encoding of the ts column entry to 1, then restore a
    // valid CRC so only the encoding check can object.
    let meta_start = HEADER_LEN;
    let meta_len = meta_len_for_cols(3);
    let encoding_pos = meta_start + 24 + 2;
    bytes[encoding_pos] = 1;
    let crc = crc32fast::hash(&bytes[meta_start..meta_start + meta_len]);
    bytes[8..12].copy_from_slice(&(meta_len as u32).to_le_bytes());
    bytes[12..16].copy_from_slice(&crc.to_le_bytes());

    let chunk = open_chunk(bytes).unwrap();
    assert!(matches!(
        chunk.read_range_i64(0, 0, 1),
        Err(Error::Unsupported(_))
    ));
    assert!(matches!(read_batch(&chunk), Err(Error::Unsupported(_))));
}

#[test]
fn encode_decode_meta_roundtrip() {
    let meta = ChunkMeta {
        row_count: 42,
        ts_min: -5,
        ts_max: 99,
        cols: vec![
            ColumnMeta {
                col_id: 0,
                encoding: 0,
                offset: 100,
                len: 336,
            },
            ColumnMeta {
                col_id: 1,
                encoding: 0,
                offset: 436,
                len: 168,
            },
            ColumnMeta {
                col_id: 2,
                encoding: 0,
                offset: 604,
                len: 336,
            },
        ],
    };
    let buf = encode_meta(&meta);
    assert_eq!(buf.len(), 84);
    let decoded = decode_meta(&buf).unwrap();
    assert_eq!(decoded.row_count, 42);
    assert_eq!(decoded.ts_min, -5);
    assert_eq!(decoded.ts_max, 99);
    assert_eq!(decoded.cols, meta.cols);

    assert!(matches!(
        decode_meta(&buf[..83]),
        Err(Error::Corrupt(_))
    ));
    assert!(matches!(decode_meta(&[0u8; 10]), Err(Error::Corrupt(_))));
}

#[test]
fn batch_slice_copies_rows() {
    let batch = make_batch(10);
    let s = batch.slice(2, 5);
    assert_eq!(s.ts, vec![2, 3, 4]);
    assert_eq!(s.series_id, vec![2, 3, 4]);
    assert_eq!(s.value.len(), 3);
    assert_eq!(s.value[0], (2f64).sin().to_bits());
    assert!(!batch.is_empty());
}
