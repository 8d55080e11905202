use can_recorder::batch::finish_record_batch;
use can_recorder::schema::{infer_schema, Schema, SignalDescriptor};
use can_recorder::store::{GenericArray, GenericColumn, SignalValue};
use can_recorder::window::{Accumulator, ConfigError, DecodedSignal, Elapsed};

fn value(x: f64) -> SignalValue {
    SignalValue {
        is_one: (x - 1.0).abs() < f64::EPSILON,
        integer: x as i64,
        single: (x as f32).to_bits(),
        double: x.to_bits(),
    }
}

fn at(ms: f64) -> Elapsed {
    Elapsed { whole_ms: ms.ceil() as i64, bits: ms.to_bits() }
}

fn decoded(name: &str, x: f64) -> DecodedSignal {
    DecodedSignal { name: name.to_string(), value: value(x) }
}

fn double_signal(name: &str) -> SignalDescriptor {
    SignalDescriptor {
        name: name.to_string(),
        bit_length: 16,
        unsigned: true,
        unit_scale: false,
        zero_offset: true,
        whole_scale: false,
        min_floor: 0,
        max_ceil: 100,
        single_range: false,
    }
}

fn schema(names: &[&str]) -> Schema {
    infer_schema(&names.iter().map(|n| double_signal(n)).collect())
}

fn doubles(column: GenericColumn) -> Vec<Option<f64>> {
    match column.finish() {
        GenericArray::F64(array) => array
            .values()
            .iter()
            .zip(array.valid().iter())
            .map(|(v, ok)| if *ok { Some(f64::from_bits(*v)) } else { None })
            .collect(),
        _ => panic!("every column in these tests is double precision"),
    }
}

#[test]
fn width_must_be_positive() {
    assert_eq!(Accumulator::new(schema(&[]), 0).err(), Some(ConfigError::WindowWidth));
    assert_eq!(Accumulator::new(schema(&[]), -5).err(), Some(ConfigError::WindowWidth));
    assert_eq!(Accumulator::new(schema(&[]), i64::MIN).err(), Some(ConfigError::WindowWidth));
    assert!(Accumulator::new(schema(&[]), 1).is_ok());
    assert!(Accumulator::new(schema(&[]), i64::MAX).is_ok());
}

#[test]
fn first_value_in_a_window_wins() {
    let mut acc = Accumulator::new(schema(&["x"]), 1000).unwrap();
    assert!(acc.offer("x", &value(3.0)));
    assert!(!acc.offer("x", &value(7.0)));
    let columns = acc.finish(at(10.0));
    let rows: Vec<Vec<Option<f64>>> = columns.into_iter().map(doubles).collect();
    assert_eq!(rows, vec![vec![Some(10.0)], vec![Some(3.0)]]);
}

#[test]
fn first_value_wins_in_every_window_anew() {
    let mut acc = Accumulator::new(schema(&["x"]), 100).unwrap();
    acc.offer("x", &value(1.0));
    acc.offer("x", &value(2.0));
    assert!(acc.advance(at(150.0)));
    acc.offer("x", &value(3.0));
    acc.offer("x", &value(4.0));
    let rows: Vec<Vec<Option<f64>>> = acc.finish(at(160.0)).into_iter().map(doubles).collect();
    assert_eq!(rows, vec![vec![Some(150.0), Some(160.0)], vec![Some(1.0), Some(3.0)]]);
}

#[test]
fn unknown_signal_is_dropped() {
    let mut acc = Accumulator::new(schema(&["x"]), 1000).unwrap();
    assert!(!acc.offer("y", &value(3.0)));
    assert!(!acc.offer("Time_ms", &value(3.0)));
    let rows: Vec<Vec<Option<f64>>> = acc.finish(at(1.0)).into_iter().map(doubles).collect();
    assert_eq!(rows, vec![vec![Some(1.0)], vec![None]]);
}

#[test]
fn three_windows_for_four_frames() {
    let mut acc = Accumulator::new(schema(&["x"]), 1000).unwrap();
    let mut closed = Vec::new();
    for (ms, x) in [(0.0, 1.0), (500.0, 2.0), (1200.0, 3.0), (2500.0, 4.0)] {
        closed.push(acc.process_frame(&vec![decoded("x", x)], at(ms)));
    }
    assert_eq!(closed, vec![false, false, true, true]);
    assert_eq!(acc.closed_windows(), 2);
    let rows: Vec<Vec<Option<f64>>> = acc.finish(at(2500.0)).into_iter().map(doubles).collect();
    assert_eq!(
        rows,
        vec![vec![Some(1200.0), Some(2500.0), Some(2500.0)], vec![Some(1.0), Some(4.0), None]]
    );
}

#[test]
fn window_ends_strictly_after_its_boundary() {
    let mut acc = Accumulator::new(schema(&[]), 1000).unwrap();
    assert!(!acc.is_due(at(1000.0)));
    assert!(acc.is_due(at(1000.25)));
    assert!(acc.is_due(at(1001.0)));
    assert!(!acc.advance(at(1000.0)));
    assert!(acc.advance(at(1000.25)));
    assert!(!acc.advance(at(2000.0)));
    assert!(acc.advance(at(2000.5)));
    assert_eq!(acc.closed_windows(), 2);
}

#[test]
fn late_frame_closes_one_window_only() {
    let mut acc = Accumulator::new(schema(&[]), 1000).unwrap();
    assert!(acc.advance(at(5500.0)));
    assert_eq!(acc.closed_windows(), 1);
    assert!(acc.advance(at(5600.0)));
    assert_eq!(acc.closed_windows(), 2);
    assert!(!acc.advance(at(1.0)));
    assert_eq!(acc.closed_windows(), 2);
}

#[test]
fn time_before_the_start_closes_nothing() {
    let mut acc = Accumulator::new(schema(&[]), 10).unwrap();
    assert!(!acc.advance(at(-5000.0)));
    assert!(!acc.advance(Elapsed { whole_ms: i64::MIN, bits: 0 }));
    assert!(acc.advance(Elapsed { whole_ms: i64::MAX, bits: 0 }));
}

#[test]
fn widest_window_never_ends_by_itself() {
    let mut acc = Accumulator::new(schema(&[]), i64::MAX).unwrap();
    assert!(!acc.advance(Elapsed { whole_ms: i64::MAX, bits: 0 }));
    assert_eq!(acc.closed_windows(), 0);
}

#[test]
fn every_column_has_one_row_per_window() {
    let mut acc = Accumulator::new(schema(&["a", "b", "c"]), 100).unwrap();
    acc.process_frame(&vec![decoded("a", 1.0)], at(10.0));
    acc.process_frame(&vec![decoded("b", 2.0), decoded("a", 9.0)], at(120.0));
    acc.process_frame(&vec![], at(130.0));
    acc.process_frame(&vec![decoded("c", 3.0)], at(250.0));
    acc.process_frame(&vec![decoded("c", 4.0), decoded("b", 5.0)], at(260.0));
    assert_eq!(acc.closed_windows(), 2);
    let columns = acc.finish(at(260.0));
    assert_eq!(columns.len(), 4);
    assert!(columns.iter().all(|c| c.len() == 3));
    let rows: Vec<Vec<Option<f64>>> = columns.into_iter().map(doubles).collect();
    assert_eq!(rows[0], vec![Some(120.0), Some(250.0), Some(260.0)]);
    assert_eq!(rows[1], vec![Some(1.0), None, None]);
    assert_eq!(rows[2], vec![Some(2.0), None, Some(5.0)]);
    assert_eq!(rows[3], vec![None, Some(3.0), Some(4.0)]);
}

#[test]
fn missing_value_is_null_and_not_zero() {
    let mut acc = Accumulator::new(schema(&["a", "b"]), 100).unwrap();
    acc.offer("a", &value(0.0));
    let columns = acc.finish(at(5.0));
    let rows: Vec<Vec<Option<f64>>> = columns.into_iter().map(doubles).collect();
    assert_eq!(rows[1], vec![Some(0.0)]);
    assert_eq!(rows[2], vec![None]);
}

#[test]
fn empty_stream_leaves_one_row() {
    let acc = Accumulator::new(schema(&["a"]), 100).unwrap();
    let rows: Vec<Vec<Option<f64>>> = acc.finish(at(0.0)).into_iter().map(doubles).collect();
    assert_eq!(rows, vec![vec![Some(0.0)], vec![None]]);
}

#[test]
fn signals_of_one_name_fill_the_first_column_of_that_name() {
    let mut acc = Accumulator::new(schema(&["a", "a"]), 100).unwrap();
    assert!(acc.offer("a", &value(1.0)));
    assert!(!acc.offer("a", &value(2.0)));
    let rows: Vec<Vec<Option<f64>>> = acc.finish(at(0.0)).into_iter().map(doubles).collect();
    assert_eq!(rows[1], vec![Some(1.0)]);
    assert_eq!(rows[2], vec![None]);
}

#[test]
fn finished_columns_make_a_table() {
    let mut acc = Accumulator::new(schema(&["a", "b"]), 100).unwrap();
    acc.process_frame(&vec![decoded("a", 1.0)], at(50.0));
    acc.process_frame(&vec![decoded("b", 2.0)], at(150.0));
    let columns = acc.finish(at(150.0));
    let batch = finish_record_batch(columns, schema(&["a", "b"])).unwrap();
    assert_eq!(batch.num_rows(), 2);
    assert_eq!(batch.num_columns(), 3);
}

#[test]
fn offer_all_takes_the_signals_in_order() {
    let mut acc = Accumulator::new(schema(&["a", "b"]), 100).unwrap();
    acc.offer_all(&vec![decoded("b", 1.0), decoded("a", 2.0), decoded("b", 3.0), decoded("zz", 4.0)]);
    let rows: Vec<Vec<Option<f64>>> = acc.finish(at(1.0)).into_iter().map(doubles).collect();
    assert_eq!(rows[1], vec![Some(2.0)]);
    assert_eq!(rows[2], vec![Some(1.0)]);
}

#[test]
fn recording_ends_in_a_table() {
    let mut acc = Accumulator::new(schema(&["a", "b"]), 100).unwrap();
    acc.process_frame(&vec![decoded("a", 1.5)], at(50.0));
    acc.process_frame(&vec![decoded("b", 2.5)], at(150.0));
    acc.process_frame(&vec![decoded("b", 3.5), decoded("a", 4.5)], at(160.0));
    let batch = acc.into_batch(at(160.0));
    assert_eq!(batch.num_rows(), 2);
    assert_eq!(batch.num_columns(), 3);
    assert_eq!(batch.get_schema().column(0).name, "Time_ms");
    assert_eq!(batch.get_schema().column(2).name, "b");
    let column = |i: usize| match batch.get_column(i) {
        GenericArray::F64(array) => {
            let values: Vec<f64> = array.values().iter().map(|v| f64::from_bits(*v)).collect();
            (values, array.valid().clone())
        }
        _ => panic!("every column in these tests is double precision"),
    };
    assert_eq!(column(0), (vec![150.0, 160.0], vec![true, true]));
    assert_eq!(column(1), (vec![1.5, 4.5], vec![true, true]));
    assert_eq!(column(2), (vec![2.5, 3.5], vec![true, true]));
}

#[test]
fn table_of_a_recording_without_frames() {
    let batch = Accumulator::new(schema(&["a"]), 100).unwrap().into_batch(at(0.0));
    assert_eq!(batch.num_rows(), 1);
    assert_eq!(batch.get_column(1).len(), 1);
    match batch.get_column(1) {
        GenericArray::F64(array) => assert_eq!(*array.valid(), vec![false]),
        _ => panic!("every column in these tests is double precision"),
    }
}
