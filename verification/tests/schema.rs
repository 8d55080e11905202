use can_recorder::schema::{infer_schema, infer_storage, SignalDescriptor};
use can_recorder::store::StorageType;

fn describe(
    name: &str,
    factor: f64,
    offset: f64,
    min: f64,
    max: f64,
    bits: u16,
    unsigned: bool,
) -> SignalDescriptor {
    let nearly = |x: f64, target: f64| (x - target).abs() < f64::EPSILON;
    SignalDescriptor {
        name: name.to_string(),
        bit_length: bits,
        unsigned,
        unit_scale: nearly(factor, 1.0),
        zero_offset: nearly(offset, 0.0),
        whole_scale: nearly(factor % 1.0, 1.0),
        min_floor: if min.is_nan() { i64::MIN } else { min.floor() as i64 },
        max_ceil: if max.is_nan() { i64::MAX } else { max.ceil() as i64 },
        single_range: min >= f64::from(f32::MIN) && max <= f64::from(f32::MAX),
    }
}

fn plain(whole_scale: bool, min_floor: i64, max_ceil: i64, single_range: bool) -> SignalDescriptor {
    SignalDescriptor {
        name: "s".to_string(),
        bit_length: 16,
        unsigned: false,
        unit_scale: false,
        zero_offset: false,
        whole_scale,
        min_floor,
        max_ceil,
        single_range,
    }
}

#[test]
fn single_unsigned_bit_with_unit_scale_is_boolean() {
    let signal = describe("flag", 1.0, 0.0, 0.0, 1.0, 1, true);
    assert_eq!(infer_storage(&signal), StorageType::Bool);
}

#[test]
fn flag_needs_all_four_conditions() {
    assert_ne!(infer_storage(&describe("a", 1.0, 0.0, 0.0, 1.0, 2, true)), StorageType::Bool);
    assert_ne!(infer_storage(&describe("b", 1.0, 0.0, 0.0, 1.0, 1, false)), StorageType::Bool);
    assert_ne!(infer_storage(&describe("c", 2.0, 0.0, 0.0, 1.0, 1, true)), StorageType::Bool);
    assert_ne!(infer_storage(&describe("d", 1.0, 1.0, 0.0, 1.0, 1, true)), StorageType::Bool);
}

#[test]
fn scale_only_roughly_one_is_no_flag() {
    let signal = describe("almost", 1.000001, 0.0, 0.0, 1.0, 1, true);
    assert!(!signal.unit_scale);
    assert_eq!(infer_storage(&signal), StorageType::F32);
    let signal = describe("offset", 1.0, 0.000001, 0.0, 1.0, 1, true);
    assert!(!signal.zero_offset);
    assert_eq!(infer_storage(&signal), StorageType::F32);
}

#[test]
fn flag_comes_before_the_integer_rule() {
    let signal = SignalDescriptor {
        name: "both".to_string(),
        bit_length: 1,
        unsigned: true,
        unit_scale: true,
        zero_offset: true,
        whole_scale: true,
        min_floor: 0,
        max_ceil: 1,
        single_range: true,
    };
    assert_eq!(infer_storage(&signal), StorageType::Bool);
}

#[test]
fn whole_scale_takes_the_narrowest_integer() {
    assert_eq!(infer_storage(&plain(true, -128, 127, true)), StorageType::I8);
    assert_eq!(infer_storage(&plain(true, 0, 0, true)), StorageType::I8);
    assert_eq!(infer_storage(&plain(true, -129, 127, true)), StorageType::I16);
    assert_eq!(infer_storage(&plain(true, -128, 128, true)), StorageType::I16);
    assert_eq!(infer_storage(&plain(true, -32768, 32767, true)), StorageType::I16);
    assert_eq!(infer_storage(&plain(true, -32769, 0, true)), StorageType::I32);
    assert_eq!(infer_storage(&plain(true, 0, 32768, true)), StorageType::I32);
    assert_eq!(infer_storage(&plain(true, -2147483648, 2147483647, true)), StorageType::I32);
    assert_eq!(infer_storage(&plain(true, -2147483649, 0, true)), StorageType::I64);
    assert_eq!(infer_storage(&plain(true, 0, 2147483648, true)), StorageType::I64);
    assert_eq!(infer_storage(&plain(true, i64::MIN, i64::MAX, false)), StorageType::I64);
}

#[test]
fn other_signals_are_floating_point_by_range() {
    assert_eq!(infer_storage(&plain(false, 0, 100, true)), StorageType::F32);
    assert_eq!(infer_storage(&plain(false, 0, 100, false)), StorageType::F64);
    assert_eq!(infer_storage(&describe("rpm", 0.25, 0.0, 0.0, 8000.0, 16, true)), StorageType::F32);
    assert_eq!(infer_storage(&describe("big", 0.5, 0.0, 0.0, 1e300, 64, true)), StorageType::F64);
    assert_eq!(infer_storage(&describe("low", 0.5, 0.0, -1e300, 0.0, 64, false)), StorageType::F64);
}

#[test]
fn scale_of_exactly_one_has_no_fractional_part_near_one() {
    let signal = describe("count", 1.0, 0.0, 0.0, 255.0, 8, true);
    assert!(signal.unit_scale);
    assert!(!signal.whole_scale);
    assert_eq!(infer_storage(&signal), StorageType::F32);
}

#[test]
fn range_that_is_not_a_number_fits_no_narrow_type() {
    let signal = describe("nan", 0.5, 0.0, f64::NAN, f64::NAN, 8, true);
    assert_eq!(infer_storage(&signal), StorageType::F64);
    let mut whole = describe("nan", 0.5, 0.0, f64::NAN, f64::NAN, 8, true);
    whole.whole_scale = true;
    assert_eq!(infer_storage(&whole), StorageType::I64);
}

#[test]
fn schema_starts_with_the_time_column() {
    let schema = infer_schema(&Vec::new());
    assert_eq!(schema.len(), 1);
    assert_eq!(schema.column(0).name, "Time_ms");
    assert_eq!(schema.column(0).storage, StorageType::F64);
    assert!(!schema.column(0).nullable);
}

#[test]
fn schema_keeps_the_order_of_declaration() {
    let signals = vec![
        describe("Lamp", 1.0, 0.0, 0.0, 1.0, 1, true),
        plain(true, -5, 5, true),
        describe("Speed", 0.01, 0.0, 0.0, 300.0, 16, true),
        describe("Huge", 0.5, 0.0, 0.0, 1e300, 64, true),
    ];
    let schema = infer_schema(&signals);
    assert_eq!(schema.len(), 5);
    let names: Vec<&str> = (0..5).map(|i| schema.column(i).name.as_str()).collect();
    assert_eq!(names, vec!["Time_ms", "Lamp", "s", "Speed", "Huge"]);
    let types: Vec<StorageType> = (0..5).map(|i| schema.column(i).storage).collect();
    assert_eq!(
        types,
        vec![StorageType::F64, StorageType::Bool, StorageType::I8, StorageType::F32, StorageType::F64]
    );
    assert!((1..5).all(|i| schema.column(i).nullable));
}

#[test]
fn index_of_finds_the_first_signal_of_a_name() {
    let signals = vec![
        describe("A", 0.5, 0.0, 0.0, 1.0, 8, true),
        describe("B", 0.5, 0.0, 0.0, 1.0, 8, true),
        describe("A", 0.5, 0.0, 0.0, 1.0, 8, true),
        describe("Time_ms", 0.5, 0.0, 0.0, 1.0, 8, true),
    ];
    let schema = infer_schema(&signals);
    assert_eq!(schema.index_of("A"), Some(1));
    assert_eq!(schema.index_of("B"), Some(2));
    assert_eq!(schema.index_of("C"), None);
    assert_eq!(schema.index_of(""), None);
    assert_eq!(schema.index_of("Time_ms"), Some(4));
    assert_eq!(infer_schema(&Vec::new()).index_of("Time_ms"), None);
}

#[test]
fn basis_row_size_is_the_sum_of_the_widths() {
    let signals = vec![
        describe("Lamp", 1.0, 0.0, 0.0, 1.0, 1, true),
        plain(true, -5, 5, true),
        plain(true, -500, 5, true),
        plain(true, -50000, 5, true),
        plain(true, -5000000000, 5, true),
        describe("Speed", 0.01, 0.0, 0.0, 300.0, 16, true),
        describe("Huge", 0.5, 0.0, 0.0, 1e300, 64, true),
    ];
    let schema = infer_schema(&signals);
    assert_eq!(schema.basis_row_bits(), 64 + 1 + 8 + 16 + 32 + 64 + 32 + 64);
    assert_eq!(infer_schema(&Vec::new()).basis_row_bits(), 64);
}

#[test]
fn widths_of_the_storage_types() {
    assert_eq!(StorageType::Bool.bits(), 1);
    assert_eq!(StorageType::I8.bits(), 8);
    assert_eq!(StorageType::I16.bits(), 16);
    assert_eq!(StorageType::I32.bits(), 32);
    assert_eq!(StorageType::I64.bits(), 64);
    assert_eq!(StorageType::F32.bits(), 32);
    assert_eq!(StorageType::F64.bits(), 64);
}
