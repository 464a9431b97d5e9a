use tsdb_core::agg_downsample::AggDownsampleOp;
use tsdb_core::batch::RecordBatch;
use tsdb_core::error::Error;
use tsdb_core::expr::{Col, Pred};
use tsdb_core::filter::FilterOp;
use tsdb_core::operators::Operator;
use tsdb_core::project::ProjectOp;
use tsdb_core::scan::{Cols, SeqScan};
use tsdb_core::writer::write_chunk;

fn make_batch(len: usize) -> RecordBatch {
    let mut ts = Vec::with_capacity(len);
    let mut series_id = Vec::with_capacity(len);
    let mut value = Vec::with_capacity(len);

    for i in 0..len {
        ts.push(i as i64);
        series_id.push((i as u32) % 1000);
        value.push((i as f64).sin().to_bits());
    }

    RecordBatch {
        ts,
        series_id,
        value,
    }
}

fn canonical_bytes() -> Vec<u8> {
    write_chunk(&make_batch(16_384)).unwrap()
}

#[test]
fn stream_scan_stitches_batches() {
    let bytes = canonical_bytes();
    let mut scan = SeqScan::open(bytes, 1000, 2000, 128, Cols::all()).unwrap();

    let mut ts = Vec::new();
    let mut series_id = Vec::new();
    let mut value = Vec::new();

    while let Some(batch) = scan.next_batch().unwrap() {
        ts.extend_from_slice(&batch.ts);
        series_id.extend_from_slice(&batch.series_id);
        value.extend_from_slice(&batch.value);
    }

    assert_eq!(ts.len(), 1000);
    assert_eq!(series_id.len(), 1000);
    assert_eq!(value.len(), 1000);
    assert_eq!(ts.first().copied().unwrap(), 1000);
    assert_eq!(ts.last().copied().unwrap(), 1999);
}

#[test]
fn scan_rejects_zero_batch_rows() {
    let bytes = canonical_bytes();
    assert!(matches!(
        SeqScan::open(bytes, 0, 10, 0, Cols::all()),
        Err(Error::Unsupported(_))
    ));
}

#[test]
fn scan_prunes_disjoint_range() {
    let bytes = canonical_bytes();
    let mut scan = SeqScan::open(bytes, 1_000_000, 1_000_100, 1024, Cols::all()).unwrap();
    assert!(scan.skipped());
    assert!(scan.next_batch().unwrap().is_none());
    assert!(scan.next_batch().unwrap().is_none());
    assert_eq!(scan.bytes_read(), 0);
    assert_eq!(scan.stats_handle().output_rows, 0);
}

#[test]
fn scan_accessors_report_state() {
    let bytes = canonical_bytes();
    let scan = SeqScan::open(bytes, 1000, 2000, 128, Cols::all()).unwrap();
    assert_eq!(scan.range(), (1000, 2000));
    assert_eq!(scan.time_range(), (1000, 2000));
    assert!(!scan.skipped());
    assert_eq!(scan.bytes_read(), 0);
}

#[test]
fn scan_bytes_read_counts_column_bytes() {
    let bytes = canonical_bytes();
    let mut scan = SeqScan::open(bytes, 1000, 2000, 128, Cols::all()).unwrap();
    while scan.next_batch().unwrap().is_some() {}
    // 1000 rows, 8 + 4 + 8 bytes each.
    assert_eq!(scan.bytes_read(), 20_000);
    assert_eq!(scan.stats_handle().bytes_read, 20_000);
    assert_eq!(scan.stats_handle().output_rows, 1000);
    assert_eq!(scan.stats_handle().num_batches, 8);
}

#[test]
fn pipeline_filter_project() {
    let bytes = canonical_bytes();
    let pred = Pred::GtF64(Col::Value, 0.5f64.to_bits());
    let scan = SeqScan::open(bytes, 0, 16_384, 1024, Cols::ts_value())
        .unwrap()
        .with_predicate(Some(pred.clone()));
    let filter = FilterOp::new(scan, pred);
    let mut project = ProjectOp::new(filter, true, false, true);

    let mut total_rows = 0usize;
    let mut all_ts = Vec::new();
    let mut all_values = Vec::new();
    while let Some(batch) = project.next_batch().unwrap() {
        total_rows += batch.len();
        assert!(batch.series_id.is_empty());
        all_ts.extend_from_slice(&batch.ts);
        all_values.extend_from_slice(&batch.value);
    }

    let expected: Vec<i64> = (0..16_384i64)
        .filter(|i| (*i as f64).sin() > 0.5)
        .collect();
    assert_eq!(all_ts, expected);
    assert_eq!(total_rows, expected.len());
    for (t, v) in all_ts.iter().zip(all_values.iter()) {
        assert_eq!(f64::from_bits(*v), (*t as f64).sin());
        assert!(f64::from_bits(*v) > 0.5);
    }

    let project_stats = project.stats_handle();
    let filter_stats = project.child.stats_handle();
    let scan_stats = project.child.child.stats_handle();
    assert_eq!(scan_stats.output_rows, 16_384);
    assert_eq!(scan_stats.num_batches, 16);
    assert_eq!(filter_stats.input_rows, 16_384);
    assert_eq!(filter_stats.output_rows, expected.len());
    assert_eq!(filter_stats.num_batches, 16);
    assert_eq!(project_stats.input_rows, expected.len());
    assert_eq!(project_stats.output_rows, expected.len());
    assert_eq!(project_stats.num_batches, 16);
}

#[test]
fn filter_keeps_matching_rows_in_order() {
    let batch = RecordBatch {
        ts: vec![0, 1, 2, 3, 4, 5],
        series_id: vec![10, 11, 12, 13, 14, 15],
        value: vec![
            (-1.0f64).to_bits(),
            (2.0f64).to_bits(),
            (0.25f64).to_bits(),
            (7.5f64).to_bits(),
            (0.5f64).to_bits(),
            (0.75f64).to_bits(),
        ],
    };
    let bytes = write_chunk(&batch).unwrap();
    let scan = SeqScan::open(bytes, 0, 6, 2, Cols::all()).unwrap();
    let mut filter = FilterOp::new(scan, Pred::GtF64(Col::Value, 0.5f64.to_bits()));

    let mut ts = Vec::new();
    while let Some(b) = filter.next_batch().unwrap() {
        ts.extend_from_slice(&b.ts);
    }
    assert_eq!(ts, vec![1, 3, 5]);
}

#[test]
fn filter_and_predicate() {
    let batch = RecordBatch {
        ts: vec![0, 1, 2, 3, 4, 5, 6, 7],
        series_id: vec![0; 8],
        value: vec![(1.5f64).to_bits(); 8],
    };
    let bytes = write_chunk(&batch).unwrap();
    let scan = SeqScan::open(bytes, 0, 8, 8, Cols::all()).unwrap();
    let pred = Pred::And(
        Box::new(Pred::GtF64(Col::Ts, 1.5f64.to_bits())),
        Box::new(Pred::LtI64(Col::Ts, 6)),
    );
    let mut filter = FilterOp::new(scan, pred);
    let mut ts = Vec::new();
    while let Some(b) = filter.next_batch().unwrap() {
        ts.extend_from_slice(&b.ts);
    }
    assert_eq!(ts, vec![2, 3, 4, 5]);
}

#[test]
fn filter_truncates_doubles_toward_zero() {
    let batch = RecordBatch {
        ts: vec![0, 1, 2, 3, 4],
        series_id: vec![0; 5],
        value: vec![
            (3.7f64).to_bits(),
            (2.9f64).to_bits(),
            (-3.7f64).to_bits(),
            (3.0f64).to_bits(),
            f64::NAN.to_bits(),
        ],
    };
    let bytes = write_chunk(&batch).unwrap();
    let scan = SeqScan::open(bytes, 0, 5, 8, Cols::all()).unwrap();
    // value as i64 < 3: 3.7 -> 3 (out), 2.9 -> 2 (in), -3.7 -> -3 (in),
    // 3.0 -> 3 (out), NaN -> 0 (in).
    let mut filter = FilterOp::new(scan, Pred::LtI64(Col::Value, 3));
    let mut ts = Vec::new();
    while let Some(b) = filter.next_batch().unwrap() {
        ts.extend_from_slice(&b.ts);
    }
    assert_eq!(ts, vec![1, 2, 4]);
}

#[test]
fn filter_widens_integers_for_float_compare() {
    let batch = RecordBatch {
        ts: vec![-3, 5, 6, 7],
        series_id: vec![1, 2, 3, 4],
        value: vec![0; 4],
    };
    let bytes = write_chunk(&batch).unwrap();
    let scan = SeqScan::open(bytes, -3, 8, 8, Cols::all()).unwrap();
    let mut filter = FilterOp::new(scan, Pred::GtF64(Col::Ts, 5.5f64.to_bits()));
    let mut ts = Vec::new();
    while let Some(b) = filter.next_batch().unwrap() {
        ts.extend_from_slice(&b.ts);
    }
    assert_eq!(ts, vec![6, 7]);
}

#[test]
fn project_drops_columns() {
    let bytes = canonical_bytes();
    let scan = SeqScan::open(bytes, 0, 10, 4, Cols::all()).unwrap();
    let mut project = ProjectOp::new(scan, false, true, false);
    let mut rows = 0usize;
    while let Some(b) = project.next_batch().unwrap() {
        assert!(b.ts.is_empty());
        assert!(b.value.is_empty());
        rows += b.series_id.len();
    }
    assert_eq!(rows, 10);
    assert_eq!(project.stats_handle().output_rows, 10);
    assert_eq!(project.stats_handle().input_rows, 10);
}

#[test]
fn downsample_canonical_windows() {
    let bytes = canonical_bytes();
    let scan = SeqScan::open(bytes, 0, 16_384, 1024, Cols::ts_value()).unwrap();
    let mut agg = AggDownsampleOp::new(scan, 100).unwrap();
    let result = agg.execute_all().unwrap();

    assert_eq!(result.rows.len(), 164);
    let total: u64 = result.rows.iter().map(|r| r.count as u64).sum();
    assert_eq!(total, 16_384);
    for (k, row) in result.rows.iter().enumerate() {
        assert_eq!(row.window_start, (k as i64) * 100);
        assert_eq!(row.window_start % 100, 0);
        if k > 0 {
            assert!(result.rows[k - 1].window_start < row.window_start);
        }
    }

    // Bucket contents follow plain IEEE-754 accumulation.
    let first = &result.rows[0];
    let mut sum = 0.0f64;
    let mut min = f64::INFINITY;
    let mut max = f64::NEG_INFINITY;
    for i in 0..100 {
        let v = (i as f64).sin();
        if i == 0 {
            sum = v;
            min = v;
            max = v;
        } else {
            sum += v;
            if v < min {
                min = v;
            }
            if v > max {
                max = v;
            }
        }
    }
    assert_eq!(first.count, 100);
    assert_eq!(first.sum, sum.to_bits());
    assert_eq!(first.min, min.to_bits());
    assert_eq!(first.max, max.to_bits());

    let last = &result.rows[163];
    assert_eq!(last.window_start, 16_300);
    assert_eq!(last.count, 84);
}

#[test]
fn downsample_rejects_bad_window() {
    let bytes = canonical_bytes();
    let scan = SeqScan::open(bytes, 0, 10, 4, Cols::ts_value()).unwrap();
    assert!(matches!(
        AggDownsampleOp::new(scan, 0),
        Err(Error::Unsupported(_))
    ));
    let bytes = canonical_bytes();
    let scan = SeqScan::open(bytes, 0, 10, 4, Cols::ts_value()).unwrap();
    assert!(matches!(
        AggDownsampleOp::new(scan, -5),
        Err(Error::Unsupported(_))
    ));
}

#[test]
fn downsample_negative_timestamps() {
    let batch = RecordBatch {
        ts: vec![-250, -150, -50, 0, 50],
        series_id: vec![0; 5],
        value: vec![(1.0f64).to_bits(); 5],
    };
    let bytes = write_chunk(&batch).unwrap();
    let scan = SeqScan::open(bytes, -250, 51, 8, Cols::all()).unwrap();
    let mut agg = AggDownsampleOp::new(scan, 100).unwrap();
    let result = agg.execute_all().unwrap();
    // Truncation toward zero: -250 -> -200, -150 -> -100, -50 -> 0,
    // 0 -> 0, 50 -> 0.
    let starts: Vec<i64> = result.rows.iter().map(|r| r.window_start).collect();
    assert_eq!(starts, vec![-200, -100, 0]);
    let counts: Vec<u32> = result.rows.iter().map(|r| r.count).collect();
    assert_eq!(counts, vec![1, 1, 3]);
}

#[test]
fn explain_renders_the_tree() {
    let bytes = canonical_bytes();
    let scan = SeqScan::open(bytes, 1000, 2000, 128, Cols::all()).unwrap();
    let filter = FilterOp::new(scan, Pred::LtI64(Col::Ts, 1500));
    let project = ProjectOp::new(filter, true, false, true);
    let rendered = project.explain(0);
    let expected = "Project(cols=ts,value)\n  Filter(pred=ts < 1500)\n    SeqScan(range=[1000, 2000), slice_range=[1000, 2000), cols=ts,series_id,value, batch_rows=128)";
    assert_eq!(rendered, expected);
}

#[test]
fn explain_renders_float_thresholds() {
    let pred = Pred::GtF64(Col::Value, 0.5f64.to_bits());
    let rendered = pred.render();
    let suffix = rendered.strip_prefix("value > ").unwrap();
    assert_eq!(suffix.parse::<f64>().unwrap(), 0.5);

    let and = Pred::And(
        Box::new(Pred::GtF64(Col::Value, 0.5f64.to_bits())),
        Box::new(Pred::LtI64(Col::SeriesId, -7)),
    );
    let rendered = and.render();
    assert!(rendered.starts_with("(value > "));
    assert!(rendered.ends_with(") AND (series_id < -7)"));
}

#[test]
fn scan_after_end_keeps_returning_none() {
    let bytes = canonical_bytes();
    let mut scan = SeqScan::open(bytes, 0, 10, 4, Cols::all()).unwrap();
    let mut rows = 0usize;
    while let Some(b) = scan.next_batch().unwrap() {
        rows += b.len();
    }
    assert_eq!(rows, 10);
    assert!(scan.next_batch().unwrap().is_none());
    assert!(scan.next_batch().unwrap().is_none());
    assert_eq!(scan.stats_handle().output_rows, 10);
}

#[test]
fn filter_refuses_predicate_on_missing_column() {
    let bytes = canonical_bytes();
    let scan = SeqScan::open(bytes, 0, 10, 4, Cols::all()).unwrap();
    // The projection drops the value column; a filter that reads it
    // cannot evaluate its predicate and reports corruption.
    let project = ProjectOp::new(scan, true, false, false);
    let mut filter = FilterOp::new(project, Pred::GtF64(Col::Value, 0.5f64.to_bits()));
    assert!(matches!(filter.next_batch(), Err(Error::Corrupt(_))));
}

#[test]
fn downsample_refuses_ragged_batches() {
    let bytes = canonical_bytes();
    let scan = SeqScan::open(bytes, 0, 10, 4, Cols::all()).unwrap();
    let project = ProjectOp::new(scan, true, true, false);
    let mut agg = AggDownsampleOp::new(project, 100).unwrap();
    assert!(matches!(agg.execute_all(), Err(Error::Corrupt(_))));
}

#[test]
fn filter_after_end_keeps_returning_none() {
    let bytes = canonical_bytes();
    let scan = SeqScan::open(bytes, 0, 10, 4, Cols::all()).unwrap();
    let mut filter = FilterOp::new(scan, Pred::LtI64(Col::Ts, 100));
    let mut rows = 0usize;
    while let Some(b) = filter.next_batch().unwrap() {
        rows += b.len();
    }
    assert_eq!(rows, 10);
    assert!(filter.next_batch().unwrap().is_none());
    assert!(filter.next_batch().unwrap().is_none());
}

#[test]
fn float_compare_edge_cases() {
    let batch = RecordBatch {
        ts: vec![0, 1, 2, 3, 4, 5],
        series_id: vec![0; 6],
        value: vec![
            f64::NAN.to_bits(),
            (-0.0f64).to_bits(),
            (0.0f64).to_bits(),
            (-1.5f64).to_bits(),
            f64::INFINITY.to_bits(),
            f64::NEG_INFINITY.to_bits(),
        ],
    };
    let bytes = write_chunk(&batch).unwrap();

    // value > 0.0: only +inf qualifies; NaN compares false, -0.0 == 0.0.
    let scan = SeqScan::open(bytes.clone(), 0, 6, 8, Cols::all()).unwrap();
    let mut filter = FilterOp::new(scan, Pred::GtF64(Col::Value, 0.0f64.to_bits()));
    let mut ts = Vec::new();
    while let Some(b) = filter.next_batch().unwrap() {
        ts.extend_from_slice(&b.ts);
    }
    assert_eq!(ts, vec![4]);

    // value > -0.0 behaves the same.
    let scan = SeqScan::open(bytes.clone(), 0, 6, 8, Cols::all()).unwrap();
    let mut filter = FilterOp::new(scan, Pred::GtF64(Col::Value, (-0.0f64).to_bits()));
    let mut ts = Vec::new();
    while let Some(b) = filter.next_batch().unwrap() {
        ts.extend_from_slice(&b.ts);
    }
    assert_eq!(ts, vec![4]);

    // A NaN threshold matches nothing.
    let scan = SeqScan::open(bytes.clone(), 0, 6, 8, Cols::all()).unwrap();
    let mut filter = FilterOp::new(scan, Pred::GtF64(Col::Value, f64::NAN.to_bits()));
    let mut ts = Vec::new();
    while let Some(b) = filter.next_batch().unwrap() {
        ts.extend_from_slice(&b.ts);
    }
    assert!(ts.is_empty());

    // value > -inf: everything but NaN and -inf itself.
    let scan = SeqScan::open(bytes, 0, 6, 8, Cols::all()).unwrap();
    let mut filter = FilterOp::new(scan, Pred::GtF64(Col::Value, f64::NEG_INFINITY.to_bits()));
    let mut ts = Vec::new();
    while let Some(b) = filter.next_batch().unwrap() {
        ts.extend_from_slice(&b.ts);
    }
    assert_eq!(ts, vec![1, 2, 3, 4]);
}

#[test]
fn downsample_min_max_ignore_nan_like_the_compare() {
    // min/max use IEEE `<` and `>`, so a NaN after the first row never
    // replaces the running extremes.
    let batch = RecordBatch {
        ts: vec![0, 1, 2],
        series_id: vec![0; 3],
        value: vec![
            (2.0f64).to_bits(),
            f64::NAN.to_bits(),
            (-1.0f64).to_bits(),
        ],
    };
    let bytes = write_chunk(&batch).unwrap();
    let scan = SeqScan::open(bytes, 0, 3, 8, Cols::all()).unwrap();
    let mut agg = AggDownsampleOp::new(scan, 100).unwrap();
    let result = agg.execute_all().unwrap();
    assert_eq!(result.rows.len(), 1);
    let row = &result.rows[0];
    assert_eq!(row.count, 3);
    assert_eq!(row.min, (-1.0f64).to_bits());
    assert_eq!(row.max, (2.0f64).to_bits());
    assert!(f64::from_bits(row.sum).is_nan());
}
